use vedirect_link::device::VeDirectDevice;
use vedirect_link::staleness::{Liveness, StalenessTracker, STALENESS_WINDOW_MS};

const SHUNT: Option<VeDirectDevice> = Some(VeDirectDevice::SmartShunt);
const SOLAR: Option<VeDirectDevice> = Some(VeDirectDevice::SmartSolarMppt);
const INVERTER: Option<VeDirectDevice> = Some(VeDirectDevice::PhoenixInverter);

#[test]
fn window_is_five_seconds() {
    assert_eq!(STALENESS_WINDOW_MS, 5_000);
}

#[test]
fn fresh_tracker_has_seen_nothing_and_reports_nothing() {
    let mut tracker = StalenessTracker::new();
    for category in [SHUNT, SOLAR, INVERTER, None] {
        assert_eq!(tracker.liveness(category), Liveness::Unseen);
    }
    assert_eq!(tracker.expire(0), vec![]);
    assert_eq!(tracker.expire(u64::MAX), vec![]);
    for category in [SHUNT, SOLAR, INVERTER, None] {
        assert_eq!(tracker.liveness(category), Liveness::Unseen);
    }
}

#[test]
fn first_frame_brings_a_class_online() {
    let mut tracker = StalenessTracker::new();
    assert!(tracker.rearm(SHUNT, 1_000));
    assert_eq!(tracker.liveness(SHUNT), Liveness::Online { deadline: 6_000 });
    assert_eq!(tracker.liveness(SOLAR), Liveness::Unseen);
    assert!(!tracker.rearm(SHUNT, 1_200));
    assert_eq!(tracker.liveness(SHUNT), Liveness::Online { deadline: 6_200 });
}

#[test]
fn silence_is_reported_offline_exactly_once() {
    let mut tracker = StalenessTracker::new();
    assert!(tracker.rearm(SOLAR, 10_000));
    assert_eq!(tracker.expire(10_001), vec![]);
    assert_eq!(tracker.expire(14_999), vec![]);
    assert_eq!(tracker.expire(15_000), vec![SOLAR]);
    assert_eq!(tracker.liveness(SOLAR), Liveness::Offline);
    assert_eq!(tracker.expire(15_001), vec![]);
    assert_eq!(tracker.expire(1_000_000), vec![]);
}

#[test]
fn frame_after_offline_reports_online_exactly_once() {
    let mut tracker = StalenessTracker::new();
    assert!(tracker.rearm(INVERTER, 0));
    assert_eq!(tracker.expire(5_000), vec![INVERTER]);
    assert!(tracker.rearm(INVERTER, 7_000));
    assert!(!tracker.rearm(INVERTER, 7_100));
    assert_eq!(tracker.liveness(INVERTER), Liveness::Online { deadline: 12_100 });
    assert_eq!(tracker.expire(12_099), vec![]);
    assert_eq!(tracker.expire(12_100), vec![INVERTER]);
}

#[test]
fn rearming_puts_the_deadline_off() {
    let mut tracker = StalenessTracker::new();
    tracker.rearm(SHUNT, 0);
    tracker.rearm(SHUNT, 4_000);
    assert_eq!(tracker.expire(5_000), vec![]);
    assert_eq!(tracker.expire(8_999), vec![]);
    assert_eq!(tracker.expire(9_000), vec![SHUNT]);
}

#[test]
fn classes_are_watched_apart_and_reported_in_a_fixed_order() {
    let mut tracker = StalenessTracker::new();
    tracker.rearm(None, 0);
    tracker.rearm(INVERTER, 10);
    tracker.rearm(SOLAR, 20);
    tracker.rearm(SHUNT, 30);
    assert_eq!(tracker.expire(5_010), vec![INVERTER, None]);
    assert_eq!(tracker.liveness(SHUNT), Liveness::Online { deadline: 5_030 });
    assert_eq!(tracker.expire(5_030), vec![SHUNT, SOLAR]);
    assert_eq!(tracker.expire(5_031), vec![]);
}

#[test]
fn deadline_saturates_at_the_end_of_time() {
    let mut tracker = StalenessTracker::new();
    tracker.rearm(SHUNT, u64::MAX - 10);
    assert_eq!(tracker.liveness(SHUNT), Liveness::Online { deadline: u64::MAX });
    assert_eq!(tracker.expire(u64::MAX - 1), vec![]);
    assert_eq!(tracker.expire(u64::MAX), vec![SHUNT]);
    tracker.rearm(SOLAR, u64::MAX - 5_000);
    assert_eq!(tracker.liveness(SOLAR), Liveness::Online { deadline: u64::MAX });
    tracker.rearm(SOLAR, u64::MAX - 5_001);
    assert_eq!(tracker.liveness(SOLAR), Liveness::Online { deadline: u64::MAX - 1 });
}
