use lite_rpc::latency_tracker::{
    latency_from_micros, LatencySamples, LatencyTracker, Notification, REPORT_INTERVAL_SECS,
};
use std::time::{Duration, Instant};

#[test]
fn new_tracker_is_empty() {
    let t = LatencyTracker::new();
    assert_eq!(t.tracked_slot_count(), 0);
    assert!(t.samples().is_empty());
    assert_eq!(t.latency_us(5), None);
}

#[test]
fn first_shred_makes_slot_measurable() {
    let mut t = LatencyTracker::new();
    t.record_first_shred(5);
    assert!(t.is_tracked(5));
    assert!(t.latency_us(5).is_some());
    assert!(t.latency_us(6).is_none());
}

#[test]
fn first_arrival_is_kept() {
    let mut t = LatencyTracker::new();
    let first = Instant::now();
    let later = first + Duration::from_secs(3);
    t.record_first_shred_at(9, first);
    t.record_first_shred_at(9, later);
    assert_eq!(t.first_shred_arrival(9), Some(first));
    t.record_first_shred(9);
    assert_eq!(t.first_shred_arrival(9), Some(first));
    assert_eq!(t.tracked_slot_count(), 1);
}

#[test]
fn unknown_slot_records_nothing() {
    let mut t = LatencyTracker::new();
    t.record_transaction(1);
    t.record_account(1);
    t.record_entry(1);
    t.record_block(1);
    assert_eq!(t.record_slot_status(1), None);
    assert!(t.samples().is_empty());
}

#[test]
fn known_slot_records_one_sample_per_notification() {
    let mut t = LatencyTracker::new();
    t.record_first_shred(3);
    t.record_transaction(3);
    t.record_transaction(3);
    t.record_account(3);
    t.record_entry(3);
    t.record_block(3);
    let s = t.samples();
    assert_eq!(s.transaction_us.len(), 2);
    assert_eq!(s.account_us.len(), 1);
    assert_eq!(s.entry_us.len(), 1);
    assert_eq!(s.block_us.len(), 1);
    assert_eq!(s.slot_status_us.len(), 0);
}

#[test]
fn slot_status_sample_before_report_is_due() {
    let mut t = LatencyTracker::new();
    t.record_first_shred(4);
    // A fresh tracker is far from its first report.
    assert_eq!(t.record_slot_status(4), None);
    assert_eq!(t.samples().slot_status_us.len(), 1);
}

/// A tracker whose slot 1 had its first shred at the returned instant.
fn tracker_with_slot_one() -> (LatencyTracker, Instant) {
    let mut t = LatencyTracker::new();
    let first = Instant::now();
    t.record_first_shred_at(1, first);
    (t, first)
}

#[test]
fn samples_go_to_their_own_series() {
    let (mut t, first) = tracker_with_slot_one();
    t.record_at(Notification::Entry, 1, first + Duration::from_micros(17));
    t.record_at(Notification::Entry, 1, first + Duration::from_micros(3));
    t.record_at(Notification::SlotStatus, 1, first + Duration::from_millis(8));
    assert_eq!(t.samples().entry_us, vec![17, 3]);
    assert_eq!(t.samples().slot_status_us, vec![8000]);
    assert!(t.samples().transaction_us.is_empty());
}

#[test]
fn latency_is_measured_from_the_first_shred() {
    let (mut t, first) = tracker_with_slot_one();
    assert_eq!(t.latency_at(1, first + Duration::from_micros(250)), Some(250));
    assert_eq!(t.latency_at(1, first + Duration::from_secs(2)), Some(2_000_000));
    assert_eq!(t.latency_at(2, first + Duration::from_secs(2)), None);
    // A reading before the arrival counts as no time at all.
    assert_eq!(t.latency_at(1, first - Duration::from_micros(5)), Some(0));
    // A later first shred for the same slot does not move the start.
    t.record_first_shred_at(1, first + Duration::from_secs(1));
    assert_eq!(t.latency_at(1, first + Duration::from_secs(2)), Some(2_000_000));
    // Notifications for an unknown slot record nothing.
    t.record_at(Notification::Block, 2, first);
    assert!(t.samples().is_empty());
}

#[test]
fn live_latency_is_not_below_the_time_already_passed() {
    let (t, first) = tracker_with_slot_one();
    let lower = first.elapsed().as_micros() as u64;
    let u = t.latency_us(1).unwrap();
    assert!(u >= lower);
}

#[test]
fn cleanup_keeps_a_window_below_the_root() {
    let mut t = LatencyTracker::new();
    for slot in [10u64, 49, 50, 51, 149, 150, 200] {
        t.record_first_shred(slot);
    }
    let arrival = t.first_shred_arrival(10).unwrap();
    t.record_at(Notification::Block, 10, arrival + Duration::from_micros(5));
    t.cleanup_old_slots(150);
    let kept: Vec<u64> = [10u64, 49, 50, 51, 149, 150, 200]
        .into_iter()
        .filter(|s| t.is_tracked(*s))
        .collect();
    assert_eq!(kept, vec![50, 51, 149, 150, 200]);
    assert_eq!(t.samples().block_us, vec![5]);
    // Again at the same root: nothing more goes.
    t.cleanup_old_slots(150);
    assert_eq!(t.tracked_slot_count(), 5);
    // A later root moves the window.
    t.cleanup_old_slots(250);
    assert_eq!(t.tracked_slot_count(), 2);
    assert!(t.is_tracked(150) && t.is_tracked(200));
}

#[test]
fn cleanup_near_slot_zero_keeps_everything() {
    let mut t = LatencyTracker::new();
    t.record_first_shred(0);
    t.record_first_shred(30);
    t.cleanup_old_slots(50);
    assert_eq!(t.tracked_slot_count(), 2);
    t.cleanup_old_slots(0);
    assert_eq!(t.tracked_slot_count(), 2);
}

#[test]
fn report_inner_on_no_samples() {
    assert_eq!(LatencyTracker::report_inner(&LatencySamples::new()), None);
}

#[test]
fn report_inner_line() {
    let mut s = LatencySamples::new();
    s.push(Notification::SlotStatus, 100);
    s.push(Notification::SlotStatus, 300);
    s.push(Notification::Transaction, 7);
    assert_eq!(
        LatencyTracker::report_inner(&s).unwrap(),
        "shred-to-geyser latency: slot: n=2 avg=200us p50=300us p99=300us max=300us | \
         tx: n=1 avg=7us p50=7us p99=7us max=7us | account: no samples | \
         entry: no samples | block: no samples"
    );
}

#[test]
fn report_falls_due_after_the_interval_since_the_last_report() {
    let (mut t, first) = tracker_with_slot_one();
    t.record_at(Notification::Account, 1, first + Duration::from_micros(12));
    let last = t.last_report();
    let almost = last + Duration::from_millis(REPORT_INTERVAL_SECS * 1000 - 1);
    assert!(!t.is_report_due(&almost));
    assert_eq!(t.report_if_due(almost, almost), None);
    assert_eq!(t.samples().account_us, vec![12]);
    assert_eq!(t.last_report(), last);
    let due = last + Duration::from_secs(REPORT_INTERVAL_SECS);
    let at = due + Duration::from_millis(1);
    assert!(t.is_report_due(&due));
    let report = t.report_if_due(due, at).unwrap();
    assert!(report.contains("account: n=1 avg=12us p50=12us p99=12us max=12us"));
    assert!(t.samples().is_empty());
    assert_eq!(t.last_report(), at);
    // The period is closed: the interval now runs from `at`.
    assert!(!t.is_report_due(&due));
    assert_eq!(t.report_if_due(at + Duration::from_secs(REPORT_INTERVAL_SECS), at), None);
}

#[test]
fn maybe_report_on_a_fresh_tracker_does_nothing() {
    let (mut t, first) = tracker_with_slot_one();
    t.record_at(Notification::Transaction, 1, first + Duration::from_micros(4));
    let last = t.last_report();
    assert_eq!(t.maybe_report(), None);
    assert_eq!(t.samples().transaction_us, vec![4]);
    assert_eq!(t.last_report(), last);
}

#[test]
fn micros_keep_their_low_bits() {
    assert_eq!(latency_from_micros(1234), 1234);
    assert_eq!(latency_from_micros(u64::MAX as u128), u64::MAX);
    assert_eq!(latency_from_micros((1u128 << 64) + 5), 5);
}

#[test]
fn samples_clear() {
    let mut s = LatencySamples::new();
    s.push(Notification::Transaction, 1);
    s.push(Notification::Block, 2);
    assert!(!s.is_empty());
    s.clear();
    assert!(s.is_empty());
}
