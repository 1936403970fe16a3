use vedirect_link::device::VeDirectDevice;
use vedirect_link::register::Register;
use vedirect_link::registry::{
    ConnectionRegistry, HotplugAction, Notification, Pending, BAUD_RATE, READ_TIMEOUT_MS,
    SETTLE_DELAY_MS,
};
use vedirect_link::staleness::Liveness;
use vedirect_link::usb::{UsbAttachment, UsbEvent};

const SHUNT: Option<VeDirectDevice> = Some(VeDirectDevice::SmartShunt);
const SOLAR: Option<VeDirectDevice> = Some(VeDirectDevice::SmartSolarMppt);

fn line(fields: &[(&str, &str)], adjust: u8) -> Vec<u8> {
    let mut bytes: Vec<u8> = Vec::new();
    for (label, value) in fields {
        bytes.extend_from_slice(b"\r\n");
        bytes.extend_from_slice(label.as_bytes());
        bytes.push(b'\t');
        bytes.extend_from_slice(value.as_bytes());
    }
    bytes.extend_from_slice(b"\r\nChecksum\t");
    let sum = bytes.iter().fold(0u8, |acc, b| acc.wrapping_add(*b));
    bytes.push(0u8.wrapping_sub(sum).wrapping_add(adjust));
    bytes
}

fn tree() -> Vec<String> {
    vec!["ep_02".to_string(), "ttyUSB0".to_string(), "uevent".to_string()]
}

fn connect(registry: &mut ConnectionRegistry, bus: u8, port: u8) {
    assert_eq!(
        registry.on_hotplug(UsbEvent::DeviceArrived { bus, port, config: 1 }),
        HotplugAction::Probe { bus, port, settle_ms: 500 }
    );
    assert!(registry.on_product(Some("VE Direct cable")).is_some());
    assert!(registry.on_device_tree(Some(&tree())).is_some());
    assert_eq!(registry.on_open(true), Some(UsbAttachment { bus, port, config: 1 }));
}

fn reg(device: Option<VeDirectDevice>, register: Register) -> Notification {
    Notification::Register { device, register }
}

fn online(device: Option<VeDirectDevice>, online: bool) -> Notification {
    Notification::Online { device, online }
}

#[test]
fn line_parameters() {
    assert_eq!(BAUD_RATE, 19_200);
    assert_eq!(READ_TIMEOUT_MS, 100);
    assert_eq!(SETTLE_DELAY_MS, 500);
}

#[test]
fn new_registry_is_empty() {
    let registry = ConnectionRegistry::new();
    assert_eq!(registry.len(), 0);
    assert_eq!(registry.pending(), Pending::Nothing);
    assert_eq!(registry.attachment(0), None);
    assert!(!registry.is_connected(1, 2));
    assert_eq!(registry.device(1, 2), None);
    assert_eq!(registry.tracker().liveness(None), Liveness::Unseen);
}

#[test]
fn arrival_is_resolved_step_by_step() {
    let mut registry = ConnectionRegistry::new();
    let action = registry.on_hotplug(UsbEvent::DeviceArrived { bus: 1, port: 2, config: 1 });
    assert_eq!(action, HotplugAction::Probe { bus: 1, port: 2, settle_ms: SETTLE_DELAY_MS });
    let attachment = UsbAttachment { bus: 1, port: 2, config: 1 };
    assert_eq!(registry.pending(), Pending::Product(attachment));
    assert_eq!(registry.len(), 0);

    let directory = registry.on_product(Some("VE Direct cable"));
    assert_eq!(directory, Some("/sys/bus/usb/devices/usb1/1-2/1-2:1.0".to_string()));
    assert_eq!(registry.pending(), Pending::DeviceTree(attachment));
    assert_eq!(registry.len(), 0);

    let settings = registry.on_device_tree(Some(&tree())).unwrap();
    assert_eq!(settings.path, "/dev/ttyUSB0");
    assert_eq!(settings.baud_rate, 19_200);
    assert_eq!(settings.timeout_ms, 100);
    assert_eq!(registry.pending(), Pending::Open(attachment));
    assert_eq!(registry.len(), 0);

    assert_eq!(registry.on_open(true), Some(attachment));
    assert_eq!(registry.pending(), Pending::Nothing);
    assert_eq!(registry.len(), 1);
    assert_eq!(registry.attachment(0), Some(attachment));
    assert!(registry.is_connected(1, 2));
    assert_eq!(registry.device(1, 2), Some(None));
}

#[test]
fn wrong_product_string_never_connects() {
    for product in [Some("FT230X Basic UART"), Some("VE Direct cable\n"), Some(""), None] {
        let mut registry = ConnectionRegistry::new();
        registry.on_hotplug(UsbEvent::DeviceArrived { bus: 1, port: 2, config: 1 });
        assert_eq!(registry.on_product(product), None);
        assert_eq!(registry.pending(), Pending::Nothing);
        assert!(registry.on_device_tree(Some(&tree())).is_none());
        assert_eq!(registry.on_open(true), None);
        assert_eq!(registry.len(), 0);
        assert!(!registry.is_connected(1, 2));
    }
}

#[test]
fn missing_tty_node_drops_the_arrival() {
    let mut registry = ConnectionRegistry::new();
    registry.on_hotplug(UsbEvent::DeviceArrived { bus: 1, port: 2, config: 1 });
    assert!(registry.on_product(Some("VE Direct cable")).is_some());
    assert!(registry.on_device_tree(Some(&vec!["ep_02".to_string()])).is_none());
    assert_eq!(registry.pending(), Pending::Nothing);
    assert_eq!(registry.on_open(true), None);
    assert_eq!(registry.len(), 0);

    registry.on_hotplug(UsbEvent::DeviceArrived { bus: 1, port: 2, config: 1 });
    assert!(registry.on_product(Some("VE Direct cable")).is_some());
    assert!(registry.on_device_tree(None).is_none());
    assert_eq!(registry.on_open(true), None);
    assert_eq!(registry.len(), 0);
}

#[test]
fn failed_open_drops_the_arrival() {
    let mut registry = ConnectionRegistry::new();
    registry.on_hotplug(UsbEvent::DeviceArrived { bus: 1, port: 2, config: 1 });
    assert!(registry.on_product(Some("VE Direct cable")).is_some());
    assert!(registry.on_device_tree(Some(&tree())).is_some());
    assert_eq!(registry.on_open(false), None);
    assert_eq!(registry.pending(), Pending::Nothing);
    assert_eq!(registry.len(), 0);
    assert_eq!(registry.on_open(true), None);
    assert_eq!(registry.len(), 0);
}

#[test]
fn steps_out_of_turn_connect_nothing() {
    let mut registry = ConnectionRegistry::new();
    assert_eq!(registry.on_open(true), None);
    assert!(registry.on_device_tree(Some(&tree())).is_none());
    assert_eq!(registry.on_product(Some("VE Direct cable")), None);
    registry.on_hotplug(UsbEvent::DeviceArrived { bus: 1, port: 2, config: 1 });
    assert!(registry.on_device_tree(Some(&tree())).is_none());
    assert_eq!(registry.on_product(Some("VE Direct cable")), None);
    registry.on_hotplug(UsbEvent::DeviceArrived { bus: 1, port: 2, config: 1 });
    assert_eq!(registry.on_open(true), None);
    assert_eq!(registry.len(), 0);
}

#[test]
fn departure_removes_the_matching_connection() {
    let mut registry = ConnectionRegistry::new();
    connect(&mut registry, 1, 2);
    connect(&mut registry, 1, 3);
    connect(&mut registry, 2, 2);
    assert_eq!(registry.len(), 3);
    assert_eq!(
        registry.on_hotplug(UsbEvent::DeviceLeft { bus: 1, port: 3 }),
        HotplugAction::Close { bus: 1, port: 3 }
    );
    assert_eq!(registry.len(), 2);
    assert!(registry.is_connected(1, 2));
    assert!(!registry.is_connected(1, 3));
    assert!(registry.is_connected(2, 2));
    assert_eq!(registry.attachment(0), Some(UsbAttachment { bus: 1, port: 2, config: 1 }));
    assert_eq!(registry.attachment(1), Some(UsbAttachment { bus: 2, port: 2, config: 1 }));
}

#[test]
fn departure_without_connection_is_a_no_op() {
    let mut registry = ConnectionRegistry::new();
    assert_eq!(
        registry.on_hotplug(UsbEvent::DeviceLeft { bus: 1, port: 2 }),
        HotplugAction::Ignore
    );
    assert_eq!(registry.len(), 0);

    connect(&mut registry, 1, 2);
    registry.on_bytes(1, 2, &line(&[("PID", "0xA38A")], 0), 10);
    assert_eq!(
        registry.on_hotplug(UsbEvent::DeviceLeft { bus: 2, port: 1 }),
        HotplugAction::Ignore
    );
    assert_eq!(registry.len(), 1);
    assert_eq!(registry.attachment(0), Some(UsbAttachment { bus: 1, port: 2, config: 1 }));
    assert_eq!(registry.device(1, 2), Some(SHUNT));
    assert_eq!(registry.pending(), Pending::Nothing);
    assert_eq!(registry.tracker().liveness(SHUNT), Liveness::Online { deadline: 5_010 });

    assert_eq!(
        registry.on_hotplug(UsbEvent::DeviceLeft { bus: 1, port: 2 }),
        HotplugAction::Close { bus: 1, port: 2 }
    );
    assert_eq!(
        registry.on_hotplug(UsbEvent::DeviceLeft { bus: 1, port: 2 }),
        HotplugAction::Ignore
    );
    assert_eq!(registry.len(), 0);
}

#[test]
fn second_arrival_in_a_slot_replaces_the_connection() {
    let mut registry = ConnectionRegistry::new();
    connect(&mut registry, 1, 2);
    registry.on_bytes(1, 2, &line(&[("PID", "0xA056")], 0), 0);
    assert_eq!(registry.device(1, 2), Some(SOLAR));
    connect(&mut registry, 5, 5);
    connect(&mut registry, 1, 2);
    assert_eq!(registry.len(), 2);
    assert_eq!(registry.device(1, 2), Some(None));
    assert_eq!(registry.attachment(0), Some(UsbAttachment { bus: 5, port: 5, config: 1 }));
    assert_eq!(registry.attachment(1), Some(UsbAttachment { bus: 1, port: 2, config: 1 }));
}

#[test]
fn valid_frame_is_forwarded_under_the_class_of_its_line() {
    let mut registry = ConnectionRegistry::new();
    connect(&mut registry, 1, 2);
    let notes = registry.on_bytes(
        1,
        2,
        &line(&[("PID", "0xA38A"), ("VS", "12650"), ("SOC", "876")], 0),
        1_000,
    );
    assert_eq!(
        notes,
        vec![
            online(SHUNT, true),
            reg(SHUNT, Register::Pid(0xA38A)),
            reg(SHUNT, Register::AuxVoltage(12650)),
            reg(SHUNT, Register::StateOfCharge(876)),
        ]
    );
    assert_eq!(registry.device(1, 2), Some(SHUNT));

    let notes = registry.on_bytes(1, 2, &line(&[("VS", "12600")], 0), 2_000);
    assert_eq!(notes, vec![reg(SHUNT, Register::AuxVoltage(12600))]);
    assert_eq!(registry.tracker().liveness(SHUNT), Liveness::Online { deadline: 7_000 });
}

#[test]
fn frames_of_an_unidentified_line_go_out_as_unknown() {
    let mut registry = ConnectionRegistry::new();
    connect(&mut registry, 1, 2);
    let notes = registry.on_bytes(1, 2, &line(&[("V", "12560")], 0), 0);
    assert_eq!(notes, vec![online(None, true), reg(None, Register::MainVoltage(12560))]);
    let notes = registry.on_bytes(1, 2, &line(&[("PID", "0xA056"), ("PPV", "9")], 0), 100);
    assert_eq!(
        notes,
        vec![
            online(SOLAR, true),
            reg(SOLAR, Register::Pid(0xA056)),
            reg(SOLAR, Register::PanelPower(9)),
        ]
    );
}

#[test]
fn bytes_may_arrive_in_any_chunks() {
    let bytes = line(&[("PID", "0xA056"), ("PPV", "130")], 0);
    for cut in 0..=bytes.len() {
        let mut registry = ConnectionRegistry::new();
        connect(&mut registry, 1, 2);
        let mut notes = registry.on_bytes(1, 2, &bytes[..cut], 5);
        notes.extend(registry.on_bytes(1, 2, &bytes[cut..], 5));
        assert_eq!(
            notes,
            vec![
                online(SOLAR, true),
                reg(SOLAR, Register::Pid(0xA056)),
                reg(SOLAR, Register::PanelPower(130)),
            ]
        );
    }
}

#[test]
fn empty_frame_keeps_its_class_alive() {
    let mut registry = ConnectionRegistry::new();
    connect(&mut registry, 1, 2);
    registry.on_bytes(1, 2, &line(&[("PID", "0xA056")], 0), 0);
    let notes = registry.on_bytes(1, 2, &line(&[("FW", "159")], 0), 4_000);
    assert_eq!(notes, vec![]);
    assert_eq!(registry.tracker().liveness(SOLAR), Liveness::Online { deadline: 9_000 });
    assert_eq!(registry.on_tick(8_999), vec![]);
}

#[test]
fn corrupt_frame_is_not_forwarded_and_keeps_nothing_alive() {
    let mut registry = ConnectionRegistry::new();
    connect(&mut registry, 1, 2);
    let notes = registry.on_bytes(1, 2, &line(&[("PID", "0xA056"), ("PPV", "130")], 1), 0);
    assert_eq!(notes, vec![]);
    assert_eq!(registry.tracker().liveness(SOLAR), Liveness::Unseen);
    assert_eq!(registry.on_tick(u64::MAX), vec![]);
}

#[test]
fn bytes_for_an_unknown_slot_are_ignored() {
    let mut registry = ConnectionRegistry::new();
    connect(&mut registry, 1, 2);
    let notes = registry.on_bytes(1, 3, &line(&[("V", "1")], 0), 0);
    assert_eq!(notes, vec![]);
    assert_eq!(registry.tracker().liveness(None), Liveness::Unseen);
}

#[test]
fn lines_are_parsed_apart() {
    let mut registry = ConnectionRegistry::new();
    connect(&mut registry, 1, 2);
    connect(&mut registry, 1, 3);
    let shunt = line(&[("PID", "0xA389"), ("SOC", "1000")], 0);
    let solar = line(&[("PID", "0xA056"), ("PPV", "12")], 0);
    let half = shunt.len() / 2;
    assert_eq!(registry.on_bytes(1, 2, &shunt[..half], 0), vec![]);
    assert_eq!(
        registry.on_bytes(1, 3, &solar, 1),
        vec![
            online(SOLAR, true),
            reg(SOLAR, Register::Pid(0xA056)),
            reg(SOLAR, Register::PanelPower(12)),
        ]
    );
    assert_eq!(
        registry.on_bytes(1, 2, &shunt[half..], 2),
        vec![
            online(SHUNT, true),
            reg(SHUNT, Register::Pid(0xA389)),
            reg(SHUNT, Register::StateOfCharge(1000)),
        ]
    );
}

#[test]
fn timeout_is_no_failure() {
    let mut registry = ConnectionRegistry::new();
    connect(&mut registry, 1, 2);
    assert!(!registry.on_read_error(1, 2, true));
    assert_eq!(registry.len(), 1);
}

#[test]
fn read_failure_removes_only_its_line() {
    let mut registry = ConnectionRegistry::new();
    connect(&mut registry, 1, 2);
    connect(&mut registry, 1, 3);
    assert!(registry.on_read_error(1, 2, false));
    assert_eq!(registry.len(), 1);
    assert!(registry.is_connected(1, 3));
    assert!(!registry.on_read_error(1, 2, false));
    assert_eq!(registry.len(), 1);
    let notes = registry.on_bytes(1, 3, &line(&[("V", "5")], 0), 0);
    assert_eq!(notes, vec![online(None, true), reg(None, Register::MainVoltage(5))]);
}

#[test]
fn silent_class_goes_offline_once_and_comes_back_once() {
    let mut registry = ConnectionRegistry::new();
    connect(&mut registry, 1, 2);
    let first = registry.on_bytes(1, 2, &line(&[("PID", "0xA2E9")], 0), 1_000);
    let inverter = Some(VeDirectDevice::PhoenixInverter);
    assert_eq!(first, vec![online(inverter, true), reg(inverter, Register::Pid(0xA2E9))]);
    assert_eq!(registry.on_tick(2_000), vec![]);
    assert_eq!(registry.on_tick(5_999), vec![]);
    assert_eq!(registry.on_tick(6_000), vec![online(inverter, false)]);
    assert_eq!(registry.on_tick(6_001), vec![]);
    assert_eq!(registry.on_tick(60_000), vec![]);
    let back = registry.on_bytes(1, 2, &line(&[("AC_OUT_S", "40")], 0), 61_000);
    assert_eq!(
        back,
        vec![online(inverter, true), reg(inverter, Register::ACOutputApparentPower(40))]
    );
    let again = registry.on_bytes(1, 2, &line(&[("AC_OUT_S", "41")], 0), 61_500);
    assert_eq!(again, vec![reg(inverter, Register::ACOutputApparentPower(41))]);
}

#[test]
fn connection_entry_getters_follow_the_line() {
    let mut registry = ConnectionRegistry::new();
    connect(&mut registry, 4, 1);
    registry.on_bytes(4, 1, &line(&[("PID", "0xA38B")], 0), 77);
    assert_eq!(registry.attachment(0), Some(UsbAttachment { bus: 4, port: 1, config: 1 }));
    assert_eq!(registry.attachment(1), None);
    assert_eq!(registry.device(4, 1), Some(SHUNT));
    assert_eq!(registry.last_frame(4, 1), Some(Some(77)));
    assert_eq!(registry.last_frame(4, 2), None);
}
