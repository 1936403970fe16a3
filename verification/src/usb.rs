//! Hot-plug events of the USB-to-serial bridge, and the queue that carries
//! them from the USB callback to the acquisition loop.

use vstd::prelude::*;

verus! {

/// The vendor id of the USB-to-serial bridge that is watched for.
pub const BRIDGE_VENDOR_ID: u16 = 0x0403;

/// The product id of the USB-to-serial bridge that is watched for.
pub const BRIDGE_PRODUCT_ID: u16 = 0x6015;

/// A physical USB slot, and the configuration that was active on the device
/// found there. The slot is the bus and the port; different cables may sit
/// in one slot over time.
#[derive(Debug, Copy, Clone, PartialEq, Eq, Structural)]
pub struct UsbAttachment {
    pub bus: u8,
    pub port: u8,
    pub config: u8,
}

impl UsbAttachment {
    /// The attachment sits in the slot `bus`, `port`.
    pub open spec fn at(self, bus: u8, port: u8) -> bool {
        self.bus == bus && self.port == port
    }

    /// See [`UsbAttachment::at`].
    pub fn is_at(&self, bus: u8, port: u8) -> (r: bool)
        ensures
            r == self.at(bus, port),
    {
        self.bus == bus && self.port == port
    }
}

/// What the USB stack reports of a bridge.
#[derive(Debug, Copy, Clone, PartialEq, Eq, Structural)]
pub enum UsbEvent {
    /// A bridge was plugged in, or was found at start-up.
    DeviceArrived { bus: u8, port: u8, config: u8 },
    /// A bridge was unplugged.
    DeviceLeft { bus: u8, port: u8 },
}

/// `crossbeam::channel::Sender`, the sending end of a queue between
/// threads. Nothing inside it is visible here.
#[verifier::external_type_specification]
#[verifier::external_body]
#[verifier::reject_recursive_types(T)]
pub struct ExSender<T>(crossbeam::channel::Sender<T>);

/// `crossbeam::channel::Receiver`, the receiving end of a queue between
/// threads. Nothing inside it is visible here.
#[verifier::external_type_specification]
#[verifier::external_body]
#[verifier::reject_recursive_types(T)]
pub struct ExReceiver<T>(crossbeam::channel::Receiver<T>);

/// `crossbeam::channel::unbounded`: a new queue without a limit, as its
/// sending and its receiving end. Nothing is claimed of the two.
#[verifier::external_body]
fn event_queue() -> (ends: (crossbeam::channel::Sender<UsbEvent>, crossbeam::channel::Receiver<UsbEvent>)) {
    crossbeam::channel::unbounded()
}

/// `Sender::send` on a queue without a limit, which does not block. The
/// event is lost if every receiving end is gone; nothing is claimed of the
/// queue afterwards, which other threads read.
#[verifier::external_body]
fn enqueue(tx: &crossbeam::channel::Sender<UsbEvent>, event: UsbEvent) {
    let _ = tx.send(event);
}

/// `Receiver::clone`: one more receiving end of the same queue.
#[verifier::external_body]
fn share(rx: &crossbeam::channel::Receiver<UsbEvent>) -> (shared: crossbeam::channel::Receiver<UsbEvent>) {
    rx.clone()
}

/// `Receiver::try_recv`: the oldest event in the queue, if there is one
/// right now. What comes back depends on what other threads have sent, so
/// nothing is claimed of it.
#[verifier::external_body]
fn dequeue(rx: &crossbeam::channel::Receiver<UsbEvent>) -> (event: Option<UsbEvent>) {
    rx.try_recv().ok()
}

/// The hot-plug handler: all it does with an arrival or a departure is to
/// queue the event for the acquisition loop.
pub struct UsbHotPlugHandler {
    event_tx: crossbeam::channel::Sender<UsbEvent>,
    event_rx: crossbeam::channel::Receiver<UsbEvent>,
    queued: Ghost<Seq<UsbEvent>>,
}

impl View for UsbHotPlugHandler {
    type V = Seq<UsbEvent>;

    /// The events that the handler has handed to its queue, oldest first.
    closed spec fn view(&self) -> Seq<UsbEvent> {
        self.queued@
    }
}

impl UsbHotPlugHandler {
    /// A handler with a queue of its own, to which it has handed nothing
    /// yet.
    pub fn new() -> (handler: UsbHotPlugHandler)
        ensures
            handler@ == Seq::<UsbEvent>::empty(),
    {
        let (tx, rx) = event_queue();
        UsbHotPlugHandler { event_tx: tx, event_rx: rx, queued: Ghost(Seq::empty()) }
    }

    /// A receiving end of the handler's queue, for the acquisition loop.
    pub fn receiver(&self) -> crossbeam::channel::Receiver<UsbEvent> {
        share(&self.event_rx)
    }

    /// Queues the arrival of a bridge in slot `bus`, `port` with active
    /// configuration `config`, and does nothing else.
    pub fn device_arrived(&mut self, bus: u8, port: u8, config: u8)
        ensures
            final(self)@ == old(self)@.push(UsbEvent::DeviceArrived { bus, port, config }),
    {
        let event = UsbEvent::DeviceArrived { bus, port, config };
        enqueue(&self.event_tx, event);
        self.queued = Ghost(self.queued@.push(event));
    }

    /// Queues the departure of the bridge in slot `bus`, `port`, and does
    /// nothing else.
    pub fn device_left(&mut self, bus: u8, port: u8)
        ensures
            final(self)@ == old(self)@.push(UsbEvent::DeviceLeft { bus, port }),
    {
        let event = UsbEvent::DeviceLeft { bus, port };
        enqueue(&self.event_tx, event);
        self.queued = Ghost(self.queued@.push(event));
    }
}

/// Takes at most one pending event from the queue, without waiting. The
/// acquisition loop calls this once per round.
pub fn poll(rx: &crossbeam::channel::Receiver<UsbEvent>) -> Option<UsbEvent> {
    dequeue(rx)
}

/// Why acquisition cannot start.
#[derive(Debug, Copy, Clone, PartialEq, Eq, Structural)]
pub enum StartError {
    /// The USB stack of this machine cannot report hot-plug events.
    HotplugUnsupported,
}

/// Decides whether acquisition may start on a machine whose USB stack can
/// (`supported`) or cannot report hot-plug events. Without them nothing is
/// started: there is no fallback to polling.
pub fn require_hotplug(supported: bool) -> (r: Result<(), StartError>)
    ensures
        r == if supported {
            Ok::<(), StartError>(())
        } else {
            Err::<(), StartError>(StartError::HotplugUnsupported)
        },
{
    if supported {
        Ok(())
    } else {
        Err(StartError::HotplugUnsupported)
    }
}

} // verus!
