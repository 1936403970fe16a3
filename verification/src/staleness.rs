//! The staleness watchdog: one deadline per device class, put off by every
//! valid frame of that class. A class whose deadline passes is reported
//! offline once; its next valid frame reports it online again.

use vstd::prelude::*;
use crate::device::VeDirectDevice;

verus! {

/// How long a device class may stay silent before it counts as offline, in
/// milliseconds.
pub const STALENESS_WINDOW_MS: u64 = 5_000;

/// A device class as the watchdog and the sink see it: `None` stands for a
/// device that has not told its class.
pub type DeviceCategory = Option<VeDirectDevice>;

/// What the watchdog knows of one device class.
#[derive(Debug, Copy, Clone, PartialEq, Eq, Structural)]
pub enum Liveness {
    /// No valid frame of this class has been seen.
    Unseen,
    /// The class is online and stays so until the clock reaches `deadline`.
    Online { deadline: u64 },
    /// The deadline passed and the class was reported offline.
    Offline,
}

/// The deadline that a frame received at `now` sets: one window later, or
/// the end of time if the clock is that close to it.
pub open spec fn deadline_after(now: u64) -> u64 {
    if now + STALENESS_WINDOW_MS > u64::MAX {
        u64::MAX
    } else {
        (now + STALENESS_WINDOW_MS) as u64
    }
}

/// A deadline has passed once the clock has reached it.
pub open spec fn lapsed(liveness: Liveness, now: u64) -> bool {
    liveness matches Liveness::Online { deadline } && deadline <= now
}

/// The watchdog, one entry per device class.
#[derive(Debug, Copy, Clone, PartialEq, Eq, Structural)]
pub struct StalenessTracker {
    pub shunt: Liveness,
    pub solar: Liveness,
    pub inverter: Liveness,
    pub unknown: Liveness,
}

impl StalenessTracker {
    /// What the watchdog knows of `category`.
    pub open spec fn of(self, category: DeviceCategory) -> Liveness {
        match category {
            Some(VeDirectDevice::SmartShunt) => self.shunt,
            Some(VeDirectDevice::SmartSolarMppt) => self.solar,
            Some(VeDirectDevice::PhoenixInverter) => self.inverter,
            None => self.unknown,
        }
    }

    /// The watchdog with what it knows of `category` replaced.
    pub open spec fn with(self, category: DeviceCategory, liveness: Liveness) -> StalenessTracker {
        match category {
            Some(VeDirectDevice::SmartShunt) => StalenessTracker { shunt: liveness, ..self },
            Some(VeDirectDevice::SmartSolarMppt) => StalenessTracker { solar: liveness, ..self },
            Some(VeDirectDevice::PhoenixInverter) => StalenessTracker { inverter: liveness, ..self },
            None => StalenessTracker { unknown: liveness, ..self },
        }
    }

    /// The watchdog after a valid frame of `category` at time `now`.
    pub open spec fn rearmed(self, category: DeviceCategory, now: u64) -> StalenessTracker {
        self.with(category, Liveness::Online { deadline: deadline_after(now) })
    }

    /// A valid frame of `category` is news: the class was not online.
    pub open spec fn comes_online(self, category: DeviceCategory) -> bool {
        !(self.of(category) is Online)
    }

    /// What the watchdog knows of one class after the clock has been looked
    /// at.
    pub open spec fn checked(liveness: Liveness, now: u64) -> Liveness {
        if lapsed(liveness, now) {
            Liveness::Offline
        } else {
            liveness
        }
    }

    /// The watchdog after the clock has been looked at, at time `now`.
    pub open spec fn expired(self, now: u64) -> StalenessTracker {
        StalenessTracker {
            shunt: Self::checked(self.shunt, now),
            solar: Self::checked(self.solar, now),
            inverter: Self::checked(self.inverter, now),
            unknown: Self::checked(self.unknown, now),
        }
    }

    /// The classes that go offline when the clock is looked at, at time
    /// `now`: shunt, solar charger, inverter, unknown, in that order.
    pub open spec fn lapsing(self, now: u64) -> Seq<DeviceCategory> {
        (if lapsed(self.shunt, now) {
            seq![Some(VeDirectDevice::SmartShunt)]
        } else {
            Seq::<DeviceCategory>::empty()
        }) + (if lapsed(self.solar, now) {
            seq![Some(VeDirectDevice::SmartSolarMppt)]
        } else {
            Seq::<DeviceCategory>::empty()
        }) + (if lapsed(self.inverter, now) {
            seq![Some(VeDirectDevice::PhoenixInverter)]
        } else {
            Seq::<DeviceCategory>::empty()
        }) + (if lapsed(self.unknown, now) {
            seq![None]
        } else {
            Seq::<DeviceCategory>::empty()
        })
    }

    /// The watchdog that has seen nothing.
    pub open spec fn blank() -> StalenessTracker {
        StalenessTracker {
            shunt: Liveness::Unseen,
            solar: Liveness::Unseen,
            inverter: Liveness::Unseen,
            unknown: Liveness::Unseen,
        }
    }

    /// A watchdog that has seen nothing.
    pub fn new() -> (tracker: StalenessTracker)
        ensures
            tracker == StalenessTracker::blank(),
    {
        StalenessTracker {
            shunt: Liveness::Unseen,
            solar: Liveness::Unseen,
            inverter: Liveness::Unseen,
            unknown: Liveness::Unseen,
        }
    }

    /// What the watchdog knows of `category`.
    pub fn liveness(&self, category: DeviceCategory) -> (liveness: Liveness)
        ensures
            liveness == self.of(category),
    {
        match category {
            Some(VeDirectDevice::SmartShunt) => self.shunt,
            Some(VeDirectDevice::SmartSolarMppt) => self.solar,
            Some(VeDirectDevice::PhoenixInverter) => self.inverter,
            None => self.unknown,
        }
    }

    /// Records a valid frame of `category` at time `now`, in milliseconds:
    /// the class is online until one window from now. Returns whether the
    /// class has just come online, that is, whether it was unseen or
    /// offline before.
    pub fn rearm(&mut self, category: DeviceCategory, now: u64) -> (came_online: bool)
        ensures
            *final(self) == old(self).rearmed(category, now),
            came_online == old(self).comes_online(category),
    {
        let came_online = match self.liveness(category) {
            Liveness::Online { .. } => false,
            _ => true,
        };
        let liveness = Liveness::Online { deadline: now.saturating_add(STALENESS_WINDOW_MS) };
        match category {
            Some(VeDirectDevice::SmartShunt) => {
                self.shunt = liveness;
            },
            Some(VeDirectDevice::SmartSolarMppt) => {
                self.solar = liveness;
            },
            Some(VeDirectDevice::PhoenixInverter) => {
                self.inverter = liveness;
            },
            None => {
                self.unknown = liveness;
            },
        }
        came_online
    }

    /// Looks at the clock, at time `now` in milliseconds. Every class whose
    /// deadline has passed goes offline and is returned, each once. Classes
    /// that were never seen, or are offline already, are not returned.
    pub fn expire(&mut self, now: u64) -> (offline: Vec<DeviceCategory>)
        ensures
            *final(self) == old(self).expired(now),
            offline@ == old(self).lapsing(now),
    {
        let mut offline: Vec<DeviceCategory> = Vec::new();
        if Self::overdue(self.shunt, now) {
            self.shunt = Liveness::Offline;
            offline.push(Some(VeDirectDevice::SmartShunt));
        }
        if Self::overdue(self.solar, now) {
            self.solar = Liveness::Offline;
            offline.push(Some(VeDirectDevice::SmartSolarMppt));
        }
        if Self::overdue(self.inverter, now) {
            self.inverter = Liveness::Offline;
            offline.push(Some(VeDirectDevice::PhoenixInverter));
        }
        if Self::overdue(self.unknown, now) {
            self.unknown = Liveness::Offline;
            offline.push(None);
        }
        assert(offline@ =~= old(self).lapsing(now));
        offline
    }

    /// Whether a deadline has passed.
    fn overdue(liveness: Liveness, now: u64) -> (r: bool)
        ensures
            r == lapsed(liveness, now),
    {
        match liveness {
            Liveness::Online { deadline } => deadline <= now,
            _ => false,
        }
    }
}

/// One thing that happens to the watchdog.
#[derive(Debug, Copy, Clone, PartialEq, Eq, Structural)]
pub enum Beat {
    /// The clock is looked at, at this time.
    Tick(u64),
    /// A valid frame of this class arrives, at this time.
    Frame(DeviceCategory, u64),
}

/// The watchdog after one beat.
pub open spec fn after_beat(tracker: StalenessTracker, beat: Beat) -> StalenessTracker {
    match beat {
        Beat::Tick(now) => tracker.expired(now),
        Beat::Frame(category, now) => tracker.rearmed(category, now),
    }
}

/// The watchdog after `beats`, in turn.
pub open spec fn after_beats(tracker: StalenessTracker, beats: Seq<Beat>) -> StalenessTracker
    decreases beats.len(),
{
    if beats.len() == 0 {
        tracker
    } else {
        after_beat(after_beats(tracker, beats.drop_last()), beats.last())
    }
}

/// How often `category` is reported offline in the course of `beats`.
pub open spec fn offline_reports(
    tracker: StalenessTracker,
    category: DeviceCategory,
    beats: Seq<Beat>,
) -> nat
    decreases beats.len(),
{
    if beats.len() == 0 {
        0
    } else {
        let before = offline_reports(tracker, category, beats.drop_last());
        match beats.last() {
            Beat::Tick(now) => if after_beats(tracker, beats.drop_last()).lapsing(now).contains(
                category,
            ) {
                before + 1
            } else {
                before
            },
            Beat::Frame(_, _) => before,
        }
    }
}

/// No frame of `category` is among `beats`.
pub open spec fn silent(beats: Seq<Beat>, category: DeviceCategory) -> bool {
    forall|i: int|
        0 <= i < beats.len() ==> !(#[trigger] beats[i] matches Beat::Frame(heard, _) && heard
            == category)
}

/// The clock is looked at, in the course of `beats`, at or after
/// `deadline`.
pub open spec fn reaches(beats: Seq<Beat>, deadline: u64) -> bool {
    exists|i: int| 0 <= i < beats.len() && #[trigger] beats[i] is Tick && beats[i]->Tick_0 >= deadline
}

/// A class is among those that go offline exactly when its own deadline has
/// passed.
pub proof fn lemma_lapsing_contains(tracker: StalenessTracker, category: DeviceCategory, now: u64)
    ensures
        tracker.lapsing(now).contains(category) <==> lapsed(tracker.of(category), now),
        tracker.expired(now).of(category) == StalenessTracker::checked(tracker.of(category), now),
{
    let s = tracker.lapsing(now);
    if lapsed(tracker.of(category), now) {
        let a = if lapsed(tracker.shunt, now) {
            seq![Some(VeDirectDevice::SmartShunt)]
        } else {
            Seq::<DeviceCategory>::empty()
        };
        let b = if lapsed(tracker.solar, now) {
            seq![Some(VeDirectDevice::SmartSolarMppt)]
        } else {
            Seq::<DeviceCategory>::empty()
        };
        let c = if lapsed(tracker.inverter, now) {
            seq![Some(VeDirectDevice::PhoenixInverter)]
        } else {
            Seq::<DeviceCategory>::empty()
        };
        let d = if lapsed(tracker.unknown, now) {
            seq![None]
        } else {
            Seq::<DeviceCategory>::empty()
        };
        assert(s == a + b + c + d);
        match category {
            Some(VeDirectDevice::SmartShunt) => {
                assert(s[0] == category);
            },
            Some(VeDirectDevice::SmartSolarMppt) => {
                assert(s[a.len() as int] == category);
            },
            Some(VeDirectDevice::PhoenixInverter) => {
                assert(s[(a.len() + b.len()) as int] == category);
            },
            None => {
                assert(s[(a.len() + b.len() + c.len()) as int] == category);
            },
        }
    } else {
        if s.contains(category) {
            let i = choose|i: int| 0 <= i < s.len() && s[i] == category;
            assert(false);
        }
    }
}

/// A class that is online and then hears nothing, whatever the other
/// classes hear, is reported offline exactly once if the clock is looked at
/// at or after its deadline, and not at all if it is not. A class that is
/// not online, because it was never seen or is offline already, is not
/// reported.
pub proof fn lemma_offline_reported_once(
    tracker: StalenessTracker,
    category: DeviceCategory,
    beats: Seq<Beat>,
)
    requires
        silent(beats, category),
    ensures
        tracker.of(category) matches Liveness::Online { deadline } ==> {
            &&& reaches(beats, deadline) ==> offline_reports(tracker, category, beats) == 1
                && after_beats(tracker, beats).of(category) is Offline
            &&& !reaches(beats, deadline) ==> offline_reports(tracker, category, beats) == 0
                && after_beats(tracker, beats).of(category) == tracker.of(category)
        },
        !(tracker.of(category) is Online) ==> offline_reports(tracker, category, beats) == 0
            && after_beats(tracker, beats).of(category) == tracker.of(category),
    decreases beats.len(),
{
    if beats.len() > 0 {
        let head = beats.drop_last();
        let beat = beats.last();
        assert(silent(head, category)) by {
            assert forall|i: int| 0 <= i < head.len() implies !(#[trigger] head[i] matches Beat::Frame(
                heard,
                _,
            ) && heard == category) by {
                assert(head[i] == beats[i]);
            }
        }
        assert(beats[beats.len() - 1] == beat);
        lemma_offline_reported_once(tracker, category, head);
        let before = after_beats(tracker, head);
        match beat {
            Beat::Tick(now) => {
                lemma_lapsing_contains(before, category, now);
            },
            Beat::Frame(other, now) => {
                assert(other != category);
                lemma_rearm_is_local(before, other, category, now);
            },
        }
        if tracker.of(category) is Online {
            let deadline = tracker.of(category)->deadline;
            if reaches(head, deadline) {
                let i = choose|i: int|
                    0 <= i < head.len() && #[trigger] head[i] is Tick && head[i]->Tick_0
                        >= deadline;
                assert(beats[i] == head[i]);
            } else if beat is Tick && beat->Tick_0 >= deadline {
            } else {
                if reaches(beats, deadline) {
                    let i = choose|i: int|
                        0 <= i < beats.len() && #[trigger] beats[i] is Tick && beats[i]->Tick_0
                            >= deadline;
                    if i < head.len() {
                        assert(head[i] == beats[i]);
                    }
                }
            }
        }
    }
}

/// A class that was marked online by a frame at time `marked` and then
/// hears nothing until the clock is looked at at or after its deadline is
/// reported offline exactly once, however often the clock is looked at; the
/// next frame of the class then reports it online, and the frame after that
/// does not report it again.
pub proof fn lemma_silence_reported_once(
    tracker: StalenessTracker,
    category: DeviceCategory,
    marked: u64,
    beats: Seq<Beat>,
    back: u64,
)
    requires
        silent(beats, category),
        reaches(beats, deadline_after(marked)),
    ensures
        offline_reports(tracker.rearmed(category, marked), category, beats) == 1,
        after_beats(tracker.rearmed(category, marked), beats).of(category) is Offline,
        after_beats(tracker.rearmed(category, marked), beats).comes_online(category),
        !after_beats(tracker.rearmed(category, marked), beats).rearmed(
            category,
            back,
        ).comes_online(category),
{
    lemma_offline_reported_once(tracker.rearmed(category, marked), category, beats);
}

/// The first valid frame of a class that is offline, or was never seen,
/// reports the class online; the frame after it does not report it again.
pub proof fn lemma_online_reported_once(
    tracker: StalenessTracker,
    category: DeviceCategory,
    first: u64,
    second: u64,
)
    requires
        !(tracker.of(category) is Online),
    ensures
        tracker.comes_online(category),
        !tracker.rearmed(category, first).comes_online(category),
        tracker.rearmed(category, first).of(category) == (Liveness::Online {
            deadline: deadline_after(first),
        }),
        !tracker.rearmed(category, first).rearmed(category, second).comes_online(category),
{
}

/// A frame of one class leaves what the watchdog knows of the other
/// classes as it was.
pub proof fn lemma_rearm_is_local(
    tracker: StalenessTracker,
    category: DeviceCategory,
    other: DeviceCategory,
    now: u64,
)
    requires
        other != category,
    ensures
        tracker.rearmed(category, now).of(other) == tracker.of(other),
{
}

} // verus!
