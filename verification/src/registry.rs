//! The connection registry: the set of serial lines that are open, each
//! with the frame parser of its own, and the decisions of the acquisition
//! loop.
//!
//! The registry opens no port and reads no byte. The loop around it does
//! that, tells the registry what happened, and does what the registry
//! answers: for an arrival, the steps of the device path resolver one after
//! the other; for bytes read from a line, the notifications to pass on to
//! the sink.

use vstd::prelude::*;
use crate::parser::{ParserModel, VeDirectParser};
use crate::register::Register;
use crate::resolver::{
    cable_name,
    dev_dir,
    device_tree,
    device_tree_path,
    first_tty,
    is_vedirect,
    resolve_tty,
    texts,
};
use crate::staleness::{DeviceCategory, StalenessTracker};
use crate::usb::{UsbAttachment, UsbEvent};

verus! {

/// How long to wait after an arrival before the device is looked at, in
/// milliseconds: the device node appears a little after the USB device.
pub const SETTLE_DELAY_MS: u64 = 500;

/// The speed of a VE.Direct line, in baud.
pub const BAUD_RATE: u32 = 19_200;

/// How long a read on a line may wait for bytes, in milliseconds.
pub const READ_TIMEOUT_MS: u64 = 100;

/// What the acquisition loop is to do about a hot-plug event.
#[derive(Debug, Copy, Clone, PartialEq, Eq, Structural)]
pub enum HotplugAction {
    /// Wait for `settle_ms` milliseconds, then read the product string of
    /// the USB device in this slot and report it with `on_product`.
    Probe { bus: u8, port: u8, settle_ms: u64 },
    /// Close the serial line of this slot: its connection is gone from the
    /// registry.
    Close { bus: u8, port: u8 },
    /// Nothing: no connection was open in the slot that was left.
    Ignore,
}

/// How a serial line is to be opened.
pub struct PortSettings {
    /// The path of the serial device node.
    pub path: String,
    /// The speed of the line, in baud.
    pub baud_rate: u32,
    /// How long a read may wait for bytes, in milliseconds.
    pub timeout_ms: u64,
}

/// What is handed to the sink.
#[derive(Debug, Copy, Clone, PartialEq, Eq, Structural)]
pub enum Notification {
    /// A register of a valid frame, with the class of the device that sent
    /// it.
    Register { device: DeviceCategory, register: Register },
    /// A device class came online or went offline.
    Online { device: DeviceCategory, online: bool },
}

/// How far the resolution of the arrival in hand has come.
#[derive(Debug, Copy, Clone, PartialEq, Eq, Structural)]
pub enum Pending {
    /// No arrival is in hand.
    Nothing,
    /// The product string of the device is awaited.
    Product(UsbAttachment),
    /// The product string was that of the cable; the listing of the device
    /// tree directory is awaited.
    DeviceTree(UsbAttachment),
    /// A serial device node was found; the outcome of opening it is
    /// awaited.
    Open(UsbAttachment),
}

/// One open line, as mathematical values.
pub struct EntryModel {
    pub attachment: UsbAttachment,
    pub parser: ParserModel,
    /// When the last valid frame arrived on this line, if one has.
    pub last_frame: Option<u64>,
}

/// The registry, as mathematical values.
pub struct RegistryModel {
    pub entries: Seq<EntryModel>,
    pub pending: Pending,
    pub tracker: StalenessTracker,
}

/// The position of the first of `entries` that sits in slot `bus`, `port`.
pub open spec fn index_of_slot(entries: Seq<EntryModel>, bus: u8, port: u8) -> Option<int>
    decreases entries.len(),
{
    if entries.len() == 0 {
        None
    } else {
        match index_of_slot(entries.drop_last(), bus, port) {
            Some(i) => Some(i),
            None => if entries.last().attachment.at(bus, port) {
                Some(entries.len() - 1)
            } else {
                None
            },
        }
    }
}

/// The notifications that one valid frame gives rise to: the news that the
/// class is online, if it is news, then the registers of the frame in their
/// order, each with the class.
pub open spec fn frame_notes(
    category: DeviceCategory,
    frame: Seq<Register>,
    news: bool,
) -> Seq<Notification> {
    (if news {
        seq![Notification::Online { device: category, online: true }]
    } else {
        Seq::<Notification>::empty()
    }) + frame.map_values(|register: Register| Notification::Register { device: category, register })
}

/// The notifications for the classes that the watchdog found overdue.
pub open spec fn offline_notes(lapsing: Seq<DeviceCategory>) -> Seq<Notification> {
    lapsing.map_values(|device: DeviceCategory| Notification::Online { device, online: false })
}

/// One line while bytes are fed to it: its parser, the time of its last
/// valid frame, the watchdog, and the notifications gathered so far.
pub struct Feed {
    pub parser: ParserModel,
    pub last_frame: Option<u64>,
    pub tracker: StalenessTracker,
    pub notes: Seq<Notification>,
}

impl Feed {
    /// The line after one more byte, read at time `now`. A byte that
    /// completes a valid frame puts off the deadline of the class that the
    /// line has at that moment, and the frame's registers go to the sink
    /// under that class.
    pub open spec fn step(self, b: u8, now: u64) -> Feed {
        let parser = self.parser.step(b);
        match self.parser.emits(b) {
            None => Feed { parser, ..self },
            Some(frame) => Feed {
                parser,
                last_frame: Some(now),
                tracker: self.tracker.rearmed(parser.device, now),
                notes: self.notes + frame_notes(
                    parser.device,
                    frame,
                    self.tracker.comes_online(parser.device),
                ),
            },
        }
    }

    /// The line after `bytes`, all read at time `now`.
    pub open spec fn run(self, bytes: Seq<u8>, now: u64) -> Feed
        decreases bytes.len(),
    {
        if bytes.len() == 0 {
            self
        } else {
            self.run(bytes.drop_last(), now).step(bytes.last(), now)
        }
    }
}

impl RegistryModel {
    /// What holds of every registry: no two connections share a slot, and
    /// every parser is sound.
    pub open spec fn inv(self) -> bool {
        &&& forall|i: int, j: int|
            0 <= i < j < self.entries.len() ==> !(#[trigger] self.entries[i]).attachment.at(
                (#[trigger] self.entries[j]).attachment.bus,
                self.entries[j].attachment.port,
            )
        &&& forall|i: int| 0 <= i < self.entries.len() ==> (#[trigger] self.entries[i]).parser.inv()
    }

    /// A connection is open in slot `bus`, `port`.
    pub open spec fn connected(self, bus: u8, port: u8) -> bool {
        index_of_slot(self.entries, bus, port) is Some
    }

    /// The registry without the connection in slot `bus`, `port`, if there
    /// was one.
    pub open spec fn without(self, bus: u8, port: u8) -> RegistryModel {
        match index_of_slot(self.entries, bus, port) {
            Some(i) => RegistryModel { entries: self.entries.remove(i), ..self },
            None => self,
        }
    }

    /// The registry after a hot-plug event. An arrival is taken in hand; a
    /// departure removes the connection of its slot.
    pub open spec fn hotplugged(self, event: UsbEvent) -> RegistryModel {
        match event {
            UsbEvent::DeviceArrived { bus, port, config } => RegistryModel {
                pending: Pending::Product(UsbAttachment { bus, port, config }),
                ..self
            },
            UsbEvent::DeviceLeft { bus, port } => self.without(bus, port),
        }
    }

    /// What the loop is to do about a hot-plug event.
    pub open spec fn hotplug_action(self, event: UsbEvent) -> HotplugAction {
        match event {
            UsbEvent::DeviceArrived { bus, port, .. } => HotplugAction::Probe {
                bus,
                port,
                settle_ms: SETTLE_DELAY_MS,
            },
            UsbEvent::DeviceLeft { bus, port } => if self.connected(bus, port) {
                HotplugAction::Close { bus, port }
            } else {
                HotplugAction::Ignore
            },
        }
    }

    /// The arrival in hand goes on to the device tree: its product string
    /// was awaited and is that of the cable.
    pub open spec fn product_accepted(self, product: Option<Seq<char>>) -> bool {
        self.pending is Product && product == Some(cable_name())
    }

    /// The registry after the product string was read, or could not be.
    pub open spec fn product_read(self, product: Option<Seq<char>>) -> RegistryModel {
        RegistryModel {
            pending: if self.product_accepted(product) {
                Pending::DeviceTree(self.pending->Product_0)
            } else {
                Pending::Nothing
            },
            ..self
        }
    }

    /// The arrival in hand goes on to opening a port: the listing of its
    /// device tree was awaited and holds a serial device node.
    pub open spec fn tree_accepted(self, names: Option<Seq<Seq<char>>>) -> bool {
        self.pending is DeviceTree && names is Some && exists|k: int| first_tty(names->0, k)
    }

    /// The registry after the device tree directory was listed, or could
    /// not be.
    pub open spec fn tree_listed(self, names: Option<Seq<Seq<char>>>) -> RegistryModel {
        RegistryModel {
            pending: if self.tree_accepted(names) {
                Pending::Open(self.pending->DeviceTree_0)
            } else {
                Pending::Nothing
            },
            ..self
        }
    }

    /// The registry after the port of the arrival in hand was opened, or
    /// could not be. A new connection takes the place of one that was still
    /// registered for the same slot.
    pub open spec fn opened(self, ok: bool) -> RegistryModel {
        if self.pending is Open && ok {
            let attachment = self.pending->Open_0;
            RegistryModel {
                entries: self.without(attachment.bus, attachment.port).entries.push(
                    EntryModel { attachment, parser: ParserModel::fresh(None), last_frame: None },
                ),
                pending: Pending::Nothing,
                ..self
            }
        } else {
            RegistryModel { pending: Pending::Nothing, ..self }
        }
    }

    /// The line at position `i` as bytes are about to be fed to it.
    pub open spec fn feed_of(self, i: int) -> Feed {
        Feed {
            parser: self.entries[i].parser,
            last_frame: self.entries[i].last_frame,
            tracker: self.tracker,
            notes: Seq::empty(),
        }
    }

    /// The registry after `bytes` were read at time `now` from the line in
    /// slot `bus`, `port`. Bytes for a slot without a connection change
    /// nothing.
    pub open spec fn received(self, bus: u8, port: u8, bytes: Seq<u8>, now: u64) -> RegistryModel {
        match index_of_slot(self.entries, bus, port) {
            Some(i) => {
                let fed = self.feed_of(i).run(bytes, now);
                RegistryModel {
                    entries: self.entries.update(
                        i,
                        EntryModel {
                            attachment: self.entries[i].attachment,
                            parser: fed.parser,
                            last_frame: fed.last_frame,
                        },
                    ),
                    tracker: fed.tracker,
                    ..self
                }
            },
            None => self,
        }
    }

    /// The notifications that those bytes give rise to.
    pub open spec fn received_notes(self, bus: u8, port: u8, bytes: Seq<u8>, now: u64) -> Seq<
        Notification,
    > {
        match index_of_slot(self.entries, bus, port) {
            Some(i) => self.feed_of(i).run(bytes, now).notes,
            None => Seq::empty(),
        }
    }

    /// The registry after a read on the line in slot `bus`, `port` failed.
    /// A read that merely timed out changes nothing; any other failure
    /// removes the connection.
    pub open spec fn read_failed(self, bus: u8, port: u8, timed_out: bool) -> RegistryModel {
        if timed_out {
            self
        } else {
            self.without(bus, port)
        }
    }

    /// The registry after the clock was looked at, at time `now`.
    pub open spec fn ticked(self, now: u64) -> RegistryModel {
        RegistryModel { tracker: self.tracker.expired(now), ..self }
    }
}

/// Where the first connection of a slot stands: at a position that holds
/// that slot, with none before it.
pub proof fn lemma_index_of_slot(entries: Seq<EntryModel>, bus: u8, port: u8)
    ensures
        match index_of_slot(entries, bus, port) {
            Some(i) => {
                &&& 0 <= i < entries.len()
                &&& entries[i].attachment.at(bus, port)
                &&& forall|j: int| 0 <= j < i ==> !(#[trigger] entries[j]).attachment.at(bus, port)
            },
            None => forall|j: int|
                0 <= j < entries.len() ==> !(#[trigger] entries[j]).attachment.at(bus, port),
        },
    decreases entries.len(),
{
    if entries.len() > 0 {
        let head = entries.drop_last();
        lemma_index_of_slot(head, bus, port);
        match index_of_slot(head, bus, port) {
            Some(i) => {
                assert(entries[i] == head[i]);
                assert forall|j: int| 0 <= j < i implies !(#[trigger] entries[j]).attachment.at(
                    bus,
                    port,
                ) by {
                    assert(entries[j] == head[j]);
                }
            },
            None => {
                assert forall|j: int| 0 <= j < entries.len() - 1 implies !(
                #[trigger] entries[j]).attachment.at(bus, port) by {
                    assert(entries[j] == head[j]);
                }
            },
        }
    }
}

/// A position that holds a slot, with none before it that does, is where
/// the first connection of that slot stands.
pub proof fn lemma_index_of_slot_is(entries: Seq<EntryModel>, bus: u8, port: u8, i: int)
    requires
        0 <= i < entries.len(),
        entries[i].attachment.at(bus, port),
        forall|j: int| 0 <= j < i ==> !(#[trigger] entries[j]).attachment.at(bus, port),
    ensures
        index_of_slot(entries, bus, port) == Some(i),
{
    lemma_index_of_slot(entries, bus, port);
}

/// One open line: the slot it was found in, its parser, and when its last
/// valid frame arrived. The serial port itself stays with the loop, which
/// keeps it under the same slot.
pub struct ConnectionEntry {
    attachment: UsbAttachment,
    parser: VeDirectParser,
    last_frame: Option<u64>,
}

impl View for ConnectionEntry {
    type V = EntryModel;

    closed spec fn view(&self) -> EntryModel {
        EntryModel {
            attachment: self.attachment,
            parser: self.parser@,
            last_frame: self.last_frame,
        }
    }
}

/// The open lines, the arrival in hand, and the staleness watchdog.
pub struct ConnectionRegistry {
    entries: Vec<ConnectionEntry>,
    pending: Pending,
    tracker: StalenessTracker,
}

impl View for ConnectionRegistry {
    type V = RegistryModel;

    closed spec fn view(&self) -> RegistryModel {
        RegistryModel {
            entries: self.entries@.map_values(|entry: ConnectionEntry| entry@),
            pending: self.pending,
            tracker: self.tracker,
        }
    }
}

impl ConnectionRegistry {
    /// A registry without connections, with no arrival in hand and a
    /// watchdog that has seen nothing.
    pub fn new() -> (registry: ConnectionRegistry)
        ensures
            registry@ == (RegistryModel {
                entries: Seq::empty(),
                pending: Pending::Nothing,
                tracker: StalenessTracker::blank(),
            }),
            registry@.inv(),
    {
        let registry = ConnectionRegistry {
            entries: Vec::new(),
            pending: Pending::Nothing,
            tracker: StalenessTracker::new(),
        };
        assert(registry@.entries =~= Seq::empty());
        registry
    }

    /// The number of open lines.
    pub fn len(&self) -> (n: usize)
        ensures
            n == self@.entries.len(),
    {
        self.entries.len()
    }

    /// The slot of the `i`-th open line.
    pub fn attachment(&self, i: usize) -> (attachment: Option<UsbAttachment>)
        ensures
            attachment == if i < self@.entries.len() {
                Some(self@.entries[i as int].attachment)
            } else {
                None
            },
    {
        if i < self.entries.len() {
            Some(self.entries[i].attachment)
        } else {
            None
        }
    }

    /// Whether a line is open in slot `bus`, `port`.
    pub fn is_connected(&self, bus: u8, port: u8) -> (r: bool)
        ensures
            r == self@.connected(bus, port),
    {
        self.find(bus, port).is_some()
    }

    /// The class of the device on the line in slot `bus`, `port`: `None`
    /// if no line is open there, `Some(None)` while the class is unknown.
    pub fn device(&self, bus: u8, port: u8) -> (device: Option<DeviceCategory>)
        ensures
            device == match index_of_slot(self@.entries, bus, port) {
                Some(i) => Some(self@.entries[i].parser.device),
                None => None,
            },
    {
        match self.find(bus, port) {
            Some(i) => Some(self.entries[i].parser.device()),
            None => None,
        }
    }

    /// When the last valid frame arrived on the line in slot `bus`, `port`:
    /// `None` if no line is open there, `Some(None)` before the first valid
    /// frame.
    pub fn last_frame(&self, bus: u8, port: u8) -> (at: Option<Option<u64>>)
        ensures
            at == match index_of_slot(self@.entries, bus, port) {
                Some(i) => Some(self@.entries[i].last_frame),
                None => None,
            },
    {
        match self.find(bus, port) {
            Some(i) => Some(self.entries[i].last_frame),
            None => None,
        }
    }

    /// How far the resolution of the arrival in hand has come.
    pub fn pending(&self) -> (pending: Pending)
        ensures
            pending == self@.pending,
    {
        self.pending
    }

    /// What the watchdog knows.
    pub fn tracker(&self) -> (tracker: StalenessTracker)
        ensures
            tracker == self@.tracker,
    {
        self.tracker
    }

    /// The position of the line in slot `bus`, `port`.
    fn find(&self, bus: u8, port: u8) -> (found: Option<usize>)
        ensures
            match found {
                Some(i) => index_of_slot(self@.entries, bus, port) == Some(i as int) && i
                    < self.entries.len(),
                None => index_of_slot(self@.entries, bus, port) is None,
            },
    {
        let mut i: usize = 0;
        while i < self.entries.len()
            invariant
                0 <= i <= self.entries.len(),
                forall|j: int| 0 <= j < i ==> !(#[trigger] self@.entries[j]).attachment.at(bus, port),
            decreases self.entries.len() - i,
        {
            if self.entries[i].attachment.is_at(bus, port) {
                proof {
                    lemma_index_of_slot_is(self@.entries, bus, port, i as int);
                }
                return Some(i);
            }
            i += 1;
        }
        proof {
            lemma_index_of_slot(self@.entries, bus, port);
        }
        None
    }

    /// Removes the line in slot `bus`, `port`, if there is one, and says
    /// whether there was.
    fn remove_slot(&mut self, bus: u8, port: u8) -> (removed: bool)
        ensures
            final(self)@ == old(self)@.without(bus, port),
            removed == old(self)@.connected(bus, port),
    {
        match self.find(bus, port) {
            Some(i) => {
                let _ = self.entries.remove(i);
                assert(self@.entries =~= old(self)@.entries.remove(i as int));
                true
            },
            None => false,
        }
    }

    /// Takes a hot-plug event. An arrival is taken in hand: the loop is to
    /// probe the device. A departure removes the connection of its slot,
    /// which the loop is to close; a departure from a slot without a
    /// connection changes nothing.
    pub fn on_hotplug(&mut self, event: UsbEvent) -> (action: HotplugAction)
        ensures
            final(self)@ == old(self)@.hotplugged(event),
            action == old(self)@.hotplug_action(event),
            event matches UsbEvent::DeviceLeft { bus, port } && !old(self)@.connected(bus, port)
                ==> final(self)@ == old(self)@ && action == HotplugAction::Ignore,
            old(self)@.inv() ==> final(self)@.inv(),
    {
        proof {
            lemma_hotplugged_keeps_inv(self@, event);
        }
        match event {
            UsbEvent::DeviceArrived { bus, port, config } => {
                self.pending = Pending::Product(UsbAttachment { bus, port, config });
                HotplugAction::Probe { bus, port, settle_ms: SETTLE_DELAY_MS }
            },
            UsbEvent::DeviceLeft { bus, port } => {
                if self.remove_slot(bus, port) {
                    HotplugAction::Close { bus, port }
                } else {
                    HotplugAction::Ignore
                }
            },
        }
    }

    /// Takes the product string of the device that arrived, `None` if the
    /// device was not found or the string could not be read. If the string
    /// is that of the cable, returns the directory that the loop is to
    /// list; if not, the arrival is dropped.
    pub fn on_product(&mut self, product: Option<&str>) -> (directory: Option<String>)
        ensures
            final(self)@ == old(self)@.product_read(
                match product {
                    Some(text) => Some(text@),
                    None => None,
                },
            ),
            match directory {
                Some(path) => final(self)@.pending matches Pending::DeviceTree(a) && path@
                    == device_tree(a.bus, a.port, a.config),
                None => final(self)@.pending is Nothing,
            },
            old(self)@.inv() ==> final(self)@.inv(),
    {
        match (self.pending, product) {
            (Pending::Product(attachment), Some(text)) => {
                if is_vedirect(text) {
                    self.pending = Pending::DeviceTree(attachment);
                    return Some(
                        device_tree_path(attachment.bus, attachment.port, attachment.config),
                    );
                }
            },
            _ => {},
        }
        self.pending = Pending::Nothing;
        None
    }

    /// Takes the names of the entries of the device tree directory, `None`
    /// if it could not be listed. If one of them is a serial device node,
    /// returns how the loop is to open the first such node; if not, the
    /// arrival is dropped.
    pub fn on_device_tree(&mut self, names: Option<&Vec<String>>) -> (port: Option<PortSettings>)
        ensures
            final(self)@ == old(self)@.tree_listed(
                match names {
                    Some(names) => Some(texts(names@)),
                    None => None,
                },
            ),
            match port {
                Some(settings) => {
                    &&& final(self)@.pending is Open
                    &&& names is Some
                    &&& exists|k: int|
                        first_tty(texts(names->0@), k) && settings.path@ == dev_dir()
                            + #[trigger] names->0@[k]@
                    &&& settings.baud_rate == BAUD_RATE
                    &&& settings.timeout_ms == READ_TIMEOUT_MS
                },
                None => final(self)@.pending is Nothing,
            },
            old(self)@.inv() ==> final(self)@.inv(),
    {
        match (self.pending, names) {
            (Pending::DeviceTree(attachment), Some(names)) => {
                match resolve_tty(names) {
                    Some(path) => {
                        proof {
                            let listed = Some(texts(names@));
                            let k = choose|k: int|
                                first_tty(texts(names@), k) && path@ == dev_dir()
                                    + #[trigger] names@[k]@;
                            assert(first_tty(listed->0, k));
                        }
                        self.pending = Pending::Open(attachment);
                        return Some(
                            PortSettings {
                                path,
                                baud_rate: BAUD_RATE,
                                timeout_ms: READ_TIMEOUT_MS,
                            },
                        );
                    },
                    None => {
                        assert forall|k: int| !first_tty(texts(names@), k) by {
                            if 0 <= k < names@.len() {
                                assert(texts(names@)[k] == names@[k]@);
                            }
                        }
                    },
                }
            },
            _ => {},
        }
        self.pending = Pending::Nothing;
        None
    }

    /// Takes the outcome of opening the port. If it was opened, the line is
    /// registered under the slot that is returned, in place of any line
    /// that was still registered there; if not, the arrival is dropped and
    /// `None` is returned.
    pub fn on_open(&mut self, ok: bool) -> (connected: Option<UsbAttachment>)
        ensures
            final(self)@ == old(self)@.opened(ok),
            connected == if old(self)@.pending is Open && ok {
                Some(old(self)@.pending->Open_0)
            } else {
                None
            },
            old(self)@.inv() ==> final(self)@.inv(),
    {
        proof {
            lemma_opened_keeps_inv(self@, ok);
        }
        let pending = self.pending;
        self.pending = Pending::Nothing;
        match pending {
            Pending::Open(attachment) => {
                if ok {
                    let _ = self.remove_slot(attachment.bus, attachment.port);
                    self.entries.push(
                        ConnectionEntry {
                            attachment,
                            parser: VeDirectParser::new(),
                            last_frame: None,
                        },
                    );
                    assert(self@.entries =~= old(self)@.opened(ok).entries);
                    return Some(attachment);
                }
            },
            _ => {},
        }
        None
    }

    /// Takes bytes that were read at time `now`, in milliseconds, from the
    /// line in slot `bus`, `port`, and returns what is to be handed to the
    /// sink, in order. Every valid frame puts off the deadline of the class
    /// that the line has when the frame is complete; if the class was not
    /// online, that comes first; then come the registers of the frame.
    pub fn on_bytes(&mut self, bus: u8, port: u8, data: &[u8], now: u64) -> (notes: Vec<
        Notification,
    >)
        ensures
            final(self)@ == old(self)@.received(bus, port, data@, now),
            notes@ == old(self)@.received_notes(bus, port, data@, now),
            old(self)@.inv() ==> final(self)@.inv(),
    {
        proof {
            lemma_received_keeps_inv(self@, bus, port, data@, now);
        }
        let mut notes: Vec<Notification> = Vec::new();
        let i: usize = match self.find(bus, port) {
            Some(i) => i,
            None => {
                return notes;
            },
        };
        let ghost start = self@.feed_of(i as int);
        let mut k: usize = 0;
        while k < data.len()
            invariant
                0 <= k <= data.len(),
                i < self.entries.len(),
                self.entries.len() == old(self).entries.len(),
                self.pending == old(self).pending,
                forall|j: int|
                    0 <= j < self.entries.len() && j != i ==> self.entries@[j] == old(
                        self,
                    ).entries@[j],
                self.entries@[i as int].attachment == old(self).entries@[i as int].attachment,
                (Feed {
                    parser: self.entries@[i as int].parser@,
                    last_frame: self.entries@[i as int].last_frame,
                    tracker: self.tracker,
                    notes: notes@,
                }) == start.run(data@.take(k as int), now),
            decreases data.len() - k,
        {
            let b: u8 = data[k];
            let ghost before = Feed {
                parser: self.entries@[i as int].parser@,
                last_frame: self.entries@[i as int].last_frame,
                tracker: self.tracker,
                notes: notes@,
            };
            proof {
                assert(data@.take(k + 1).drop_last() =~= data@.take(k as int));
                assert(data@.take(k + 1).last() == b);
            }
            match self.entries[i].parser.push_one(b) {
                Some(regs) => {
                    let category = self.entries[i].parser.device();
                    self.entries[i].last_frame = Some(now);
                    let news = self.tracker.rearm(category, now);
                    if news {
                        notes.push(Notification::Online { device: category, online: true });
                    }
                    let mut r: usize = 0;
                    while r < regs.len()
                        invariant
                            0 <= r <= regs.len(),
                            notes@ == before.notes + frame_notes(
                                category,
                                regs@.take(r as int),
                                news,
                            ),
                        decreases regs.len() - r,
                    {
                        notes.push(Notification::Register { device: category, register: regs[r] });
                        assert(frame_notes(category, regs@.take(r + 1), news) =~= frame_notes(
                            category,
                            regs@.take(r as int),
                            news,
                        ).push(Notification::Register { device: category, register: regs@[r as int] }));
                        r += 1;
                    }
                    assert(regs@.take(r as int) =~= regs@);
                },
                None => {},
            }
            k += 1;
        }
        assert(data@.take(k as int) =~= data@);
        assert(self@.entries =~= old(self)@.received(bus, port, data@, now).entries);
        notes
    }

    /// Takes the failure of a read on the line in slot `bus`, `port`. A
    /// read that timed out is no failure. After any other, the connection
    /// is removed; the result says whether one was, in which case the loop
    /// is to close the line.
    pub fn on_read_error(&mut self, bus: u8, port: u8, timed_out: bool) -> (removed: bool)
        ensures
            final(self)@ == old(self)@.read_failed(bus, port, timed_out),
            removed == (!timed_out && old(self)@.connected(bus, port)),
            old(self)@.inv() ==> final(self)@.inv(),
    {
        proof {
            if self@.inv() {
                lemma_without_keeps_inv(self@, bus, port);
            }
        }
        !timed_out && self.remove_slot(bus, port)
    }

    /// Looks at the clock, at time `now` in milliseconds, and returns one
    /// offline notification for every device class whose deadline has
    /// passed.
    pub fn on_tick(&mut self, now: u64) -> (notes: Vec<Notification>)
        ensures
            final(self)@ == old(self)@.ticked(now),
            notes@ == offline_notes(old(self)@.tracker.lapsing(now)),
            old(self)@.inv() ==> final(self)@.inv(),
    {
        let lapsing = self.tracker.expire(now);
        let mut notes: Vec<Notification> = Vec::new();
        let mut i: usize = 0;
        while i < lapsing.len()
            invariant
                0 <= i <= lapsing.len(),
                notes@ == offline_notes(lapsing@.take(i as int)),
            decreases lapsing.len() - i,
        {
            notes.push(Notification::Online { device: lapsing[i], online: false });
            assert(offline_notes(lapsing@.take(i + 1)) =~= offline_notes(
                lapsing@.take(i as int),
            ).push(Notification::Online { device: lapsing@[i as int], online: false }));
            i += 1;
        }
        assert(lapsing@.take(i as int) =~= lapsing@);
        notes
    }
}

/// Removing the connection of a slot leaves a registry sound.
pub proof fn lemma_without_keeps_inv(r: RegistryModel, bus: u8, port: u8)
    requires
        r.inv(),
    ensures
        r.without(bus, port).inv(),
        !r.without(bus, port).connected(bus, port),
{
    lemma_index_of_slot(r.entries, bus, port);
    let after = r.without(bus, port);
    match index_of_slot(r.entries, bus, port) {
        Some(i) => {
            assert forall|j: int| 0 <= j < after.entries.len() implies !(
            #[trigger] after.entries[j]).attachment.at(bus, port) by {
                if j < i {
                    assert(after.entries[j] == r.entries[j]);
                } else {
                    assert(after.entries[j] == r.entries[j + 1]);
                }
            }
            assert forall|a: int, b: int| 0 <= a < b < after.entries.len() implies !(
            #[trigger] after.entries[a]).attachment.at(
                (#[trigger] after.entries[b]).attachment.bus,
                after.entries[b].attachment.port,
            ) by {
                let a0 = if a < i { a } else { a + 1 };
                let b0 = if b < i { b } else { b + 1 };
                assert(after.entries[a] == r.entries[a0]);
                assert(after.entries[b] == r.entries[b0]);
            }
            assert forall|j: int| 0 <= j < after.entries.len() implies (
            #[trigger] after.entries[j]).parser.inv() by {
                let j0 = if j < i { j } else { j + 1 };
                assert(after.entries[j] == r.entries[j0]);
            }
        },
        None => {},
    }
    lemma_index_of_slot(after.entries, bus, port);
}

/// No hot-plug event leads a registry out of what holds of every registry.
pub proof fn lemma_hotplugged_keeps_inv(r: RegistryModel, event: UsbEvent)
    ensures
        r.inv() ==> r.hotplugged(event).inv(),
{
    if r.inv() {
        match event {
            UsbEvent::DeviceArrived { .. } => {},
            UsbEvent::DeviceLeft { bus, port } => {
                lemma_without_keeps_inv(r, bus, port);
            },
        }
    }
}

/// Registering a line keeps a registry sound: the slot of the new line was
/// cleared first.
pub proof fn lemma_opened_keeps_inv(r: RegistryModel, ok: bool)
    ensures
        r.inv() ==> r.opened(ok).inv(),
{
    if r.inv() && r.pending is Open && ok {
        let attachment = r.pending->Open_0;
        let cleared = r.without(attachment.bus, attachment.port);
        lemma_without_keeps_inv(r, attachment.bus, attachment.port);
        lemma_index_of_slot(cleared.entries, attachment.bus, attachment.port);
        let after = r.opened(ok);
        let n = cleared.entries.len() as int;
        assert forall|a: int, b: int| 0 <= a < b < after.entries.len() implies !(
        #[trigger] after.entries[a]).attachment.at(
            (#[trigger] after.entries[b]).attachment.bus,
            after.entries[b].attachment.port,
        ) by {
            assert(after.entries[a] == cleared.entries[a]);
            if b < n {
                assert(after.entries[b] == cleared.entries[b]);
            }
        }
        assert forall|j: int| 0 <= j < after.entries.len() implies (
        #[trigger] after.entries[j]).parser.inv() by {
            if j < n {
                assert(after.entries[j] == cleared.entries[j]);
            }
        }
    }
}

/// Feeding bytes to a sound parser leaves it sound.
pub proof fn lemma_feed_keeps_inv(feed: Feed, bytes: Seq<u8>, now: u64)
    requires
        feed.parser.inv(),
    ensures
        feed.run(bytes, now).parser.inv(),
    decreases bytes.len(),
{
    if bytes.len() > 0 {
        lemma_feed_keeps_inv(feed, bytes.drop_last(), now);
        crate::parser::lemma_step_keeps_inv(feed.run(bytes.drop_last(), now).parser, bytes.last());
    }
}

/// The parser of a line that is fed bytes goes the way of the frame parser
/// on those bytes.
pub proof fn lemma_feed_follows_parser(feed: Feed, bytes: Seq<u8>, now: u64)
    ensures
        feed.run(bytes, now).parser == crate::frame::run(feed.parser, bytes),
    decreases bytes.len(),
{
    if bytes.len() > 0 {
        lemma_feed_follows_parser(feed, bytes.drop_last(), now);
    }
}

/// The registers among `notes`, in their order.
pub open spec fn registers_of(notes: Seq<Notification>) -> Seq<Register>
    decreases notes.len(),
{
    if notes.len() == 0 {
        Seq::empty()
    } else {
        let before = registers_of(notes.drop_last());
        match notes.last() {
            Notification::Register { register, .. } => before.push(register),
            Notification::Online { .. } => before,
        }
    }
}

/// The registers of `frames`, frame after frame.
pub open spec fn joined(frames: Seq<Seq<Register>>) -> Seq<Register>
    decreases frames.len(),
{
    if frames.len() == 0 {
        Seq::empty()
    } else {
        joined(frames.drop_last()) + frames.last()
    }
}

/// The registers among two runs of notifications are those of the first,
/// then those of the second.
pub proof fn lemma_registers_of_concat(a: Seq<Notification>, b: Seq<Notification>)
    ensures
        registers_of(a + b) == registers_of(a) + registers_of(b),
    decreases b.len(),
{
    if b.len() == 0 {
        assert(a + b =~= a);
        assert(registers_of(a) + registers_of(b) =~= registers_of(a));
    } else {
        lemma_registers_of_concat(a, b.drop_last());
        assert((a + b).drop_last() =~= a + b.drop_last());
        assert((a + b).last() == b.last());
        match b.last() {
            Notification::Register { register, .. } => {
                assert((registers_of(a) + registers_of(b.drop_last())).push(register)
                    =~= registers_of(a) + registers_of(b));
            },
            Notification::Online { .. } => {},
        }
    }
}

/// The registers among the notifications of one frame are the registers of
/// the frame.
pub proof fn lemma_registers_of_frame_notes(
    category: DeviceCategory,
    frame: Seq<Register>,
    news: bool,
)
    ensures
        registers_of(frame_notes(category, frame, news)) == frame,
    decreases frame.len(),
{
    let wrap = |register: Register| Notification::Register { device: category, register };
    let lead = if news {
        seq![Notification::Online { device: category, online: true }]
    } else {
        Seq::<Notification>::empty()
    };
    if frame.len() == 0 {
        assert(frame.map_values(wrap) =~= Seq::<Notification>::empty());
        assert(frame_notes(category, frame, news) =~= lead);
        if news {
            assert(lead.drop_last() =~= Seq::<Notification>::empty());
            assert(registers_of(lead.drop_last()) =~= Seq::<Register>::empty());
            assert(lead.last() == Notification::Online { device: category, online: true });
        }
        assert(registers_of(lead) =~= frame);
    } else {
        lemma_registers_of_frame_notes(category, frame.drop_last(), news);
        let notes = frame_notes(category, frame, news);
        assert(notes.drop_last() =~= frame_notes(category, frame.drop_last(), news));
        assert(notes.last() == wrap(frame.last()));
        assert(frame.drop_last().push(frame.last()) =~= frame);
    }
}

/// Every register of every valid frame goes to the sink, frame after frame
/// and in the order of the frame, and no other register does.
pub proof fn lemma_feed_forwards_frames(feed: Feed, bytes: Seq<u8>, now: u64)
    ensures
        registers_of(feed.run(bytes, now).notes) == registers_of(feed.notes) + joined(
            crate::frame::frames(feed.parser, bytes),
        ),
    decreases bytes.len(),
{
    if bytes.len() == 0 {
        assert(registers_of(feed.notes) + Seq::<Register>::empty() =~= registers_of(feed.notes));
    } else {
        let head = bytes.drop_last();
        lemma_feed_forwards_frames(feed, head, now);
        lemma_feed_follows_parser(feed, head, now);
        let before = feed.run(head, now);
        match before.parser.emits(bytes.last()) {
            Some(frame) => {
                let category = before.parser.step(bytes.last()).device;
                let news = before.tracker.comes_online(category);
                lemma_registers_of_concat(before.notes, frame_notes(category, frame, news));
                lemma_registers_of_frame_notes(category, frame, news);
                let earlier = crate::frame::frames(feed.parser, head);
                assert(earlier.push(frame).drop_last() =~= earlier);
                assert(registers_of(feed.notes) + joined(earlier) + frame =~= registers_of(
                    feed.notes,
                ) + (joined(earlier) + frame));
            },
            None => {},
        }
    }
}

/// Bytes read from a line keep a registry sound.
pub proof fn lemma_received_keeps_inv(r: RegistryModel, bus: u8, port: u8, bytes: Seq<u8>, now: u64)
    ensures
        r.inv() ==> r.received(bus, port, bytes, now).inv(),
{
    if r.inv() {
        lemma_index_of_slot(r.entries, bus, port);
        match index_of_slot(r.entries, bus, port) {
            Some(i) => {
                lemma_feed_keeps_inv(r.feed_of(i), bytes, now);
                let after = r.received(bus, port, bytes, now);
                assert forall|a: int, b: int| 0 <= a < b < after.entries.len() implies !(
                #[trigger] after.entries[a]).attachment.at(
                    (#[trigger] after.entries[b]).attachment.bus,
                    after.entries[b].attachment.port,
                ) by {
                    assert(after.entries[a].attachment == r.entries[a].attachment);
                    assert(after.entries[b].attachment == r.entries[b].attachment);
                }
                assert forall|j: int| 0 <= j < after.entries.len() implies (
                #[trigger] after.entries[j]).parser.inv() by {
                    if j != i {
                        assert(after.entries[j] == r.entries[j]);
                    }
                }
            },
            None => {},
        }
    }
}

/// A departure from a slot in which no connection is open changes nothing,
/// and nothing is to be closed.
pub proof fn lemma_stale_departure_changes_nothing(r: RegistryModel, bus: u8, port: u8)
    requires
        !r.connected(bus, port),
    ensures
        r.hotplugged(UsbEvent::DeviceLeft { bus, port }) == r,
        r.hotplug_action(UsbEvent::DeviceLeft { bus, port }) == HotplugAction::Ignore,
{
}

/// An arrival whose product string is not that of the cable, or could not
/// be read, never becomes a connection: whatever the device tree holds and
/// whatever opening a port would give, the connections stay as they were.
pub proof fn lemma_wrong_cable_never_connects(
    r: RegistryModel,
    bus: u8,
    port: u8,
    config: u8,
    product: Option<Seq<char>>,
    names: Option<Seq<Seq<char>>>,
    ok: bool,
)
    requires
        product != Some(cable_name()),
    ensures
        r.hotplugged(UsbEvent::DeviceArrived { bus, port, config }).product_read(product).pending
            is Nothing,
        r.hotplugged(UsbEvent::DeviceArrived { bus, port, config }).product_read(
            product,
        ).tree_listed(names).opened(ok).entries == r.entries,
{
}

/// Connections are only ever added by an opened port, and a port is only
/// opened for an arrival whose product string was that of the cable and
/// whose device tree held a serial device node.
pub proof fn lemma_connections_need_the_cable(r: RegistryModel)
    ensures
        forall|product: Option<Seq<char>>| #[trigger]
            r.product_read(product).entries == r.entries && (r.product_read(product).pending
                is DeviceTree ==> product == Some(cable_name())),
        forall|names: Option<Seq<Seq<char>>>| #[trigger]
            r.tree_listed(names).entries == r.entries && (r.tree_listed(names).pending is Open
                ==> r.pending is DeviceTree),
        forall|ok: bool| !(r.pending is Open) ==> #[trigger] r.opened(ok).entries == r.entries,
{
}

} // verus!
