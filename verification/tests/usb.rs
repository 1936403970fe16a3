use vedirect_link::usb::{
    poll, require_hotplug, StartError, UsbAttachment, UsbEvent, UsbHotPlugHandler,
    BRIDGE_PRODUCT_ID, BRIDGE_VENDOR_ID,
};

#[test]
fn bridge_ids_are_those_of_the_cable_chip() {
    assert_eq!(BRIDGE_VENDOR_ID, 0x0403);
    assert_eq!(BRIDGE_PRODUCT_ID, 0x6015);
}

#[test]
fn start_needs_hotplug() {
    assert_eq!(require_hotplug(true), Ok(()));
    assert_eq!(require_hotplug(false), Err(StartError::HotplugUnsupported));
}

#[test]
fn attachment_sits_in_its_slot_whatever_the_configuration() {
    let attachment = UsbAttachment { bus: 1, port: 4, config: 2 };
    assert!(attachment.is_at(1, 4));
    assert!(!attachment.is_at(4, 1));
    assert!(!attachment.is_at(1, 5));
    assert!(!attachment.is_at(2, 4));
}

#[test]
fn new_handler_has_an_empty_queue() {
    let handler = UsbHotPlugHandler::new();
    let rx = handler.receiver();
    assert_eq!(poll(&rx), None);
    assert_eq!(poll(&rx), None);
}

#[test]
fn events_come_out_in_the_order_they_were_queued() {
    let mut handler = UsbHotPlugHandler::new();
    let rx = handler.receiver();
    handler.device_arrived(1, 2, 1);
    handler.device_left(1, 2);
    handler.device_arrived(3, 7, 2);
    assert_eq!(poll(&rx), Some(UsbEvent::DeviceArrived { bus: 1, port: 2, config: 1 }));
    assert_eq!(poll(&rx), Some(UsbEvent::DeviceLeft { bus: 1, port: 2 }));
    assert_eq!(poll(&rx), Some(UsbEvent::DeviceArrived { bus: 3, port: 7, config: 2 }));
    assert_eq!(poll(&rx), None);
}

#[test]
fn receivers_share_one_queue() {
    let mut handler = UsbHotPlugHandler::new();
    let first = handler.receiver();
    let second = handler.receiver();
    handler.device_left(9, 9);
    assert_eq!(poll(&second), Some(UsbEvent::DeviceLeft { bus: 9, port: 9 }));
    assert_eq!(poll(&first), None);
}

#[test]
fn queue_outlives_the_handler() {
    let mut handler = UsbHotPlugHandler::new();
    let rx = handler.receiver();
    handler.device_arrived(2, 2, 2);
    drop(handler);
    assert_eq!(poll(&rx), Some(UsbEvent::DeviceArrived { bus: 2, port: 2, config: 2 }));
    assert_eq!(poll(&rx), None);
}
