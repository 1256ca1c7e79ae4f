//! Tracks when the first shred of each slot arrived and the latency from that
//! moment to each Geyser notification of the slot, and periodically renders a
//! summary of the accumulated latencies.

use std::collections::HashMap;
use std::time::Instant;
use vstd::prelude::*;
use vstd::std_specs::hash::spec_keys_iter;
use vstd::std_specs::iter::IteratorSpec;
use crate::clock::{
    duration_as_micros, duration_as_secs, duration_between, duration_micros, duration_since,
    instant_now,
};
use crate::stats::{format_stats, lemma_stats_of_one, stats_text};
use crate::text::decimal;

verus! {

broadcast use vstd::std_specs::hash::group_hash_axioms;

/// Seconds that must pass between two reports.
pub const REPORT_INTERVAL_SECS: u64 = 10;

/// How many slots below the rooted slot keep their first-shred time.
pub const SLOT_RETENTION: u64 = 100;

/// The Geyser notifications whose latency is measured.
#[derive(Clone, Copy, Debug, PartialEq, Eq)]
pub enum Notification {
    SlotStatus,
    Transaction,
    Account,
    Entry,
    Block,
}

/// The samples accumulated since the last report, one series per notification.
pub struct SamplesView {
    pub slot_status: Seq<u64>,
    pub transaction: Seq<u64>,
    pub account: Seq<u64>,
    pub entry: Seq<u64>,
    pub block: Seq<u64>,
}

impl SamplesView {
    /// No samples at all.
    pub open spec fn empty() -> SamplesView {
        SamplesView {
            slot_status: Seq::empty(),
            transaction: Seq::empty(),
            account: Seq::empty(),
            entry: Seq::empty(),
            block: Seq::empty(),
        }
    }

    /// The series of one kind of notification.
    pub open spec fn series(self, kind: Notification) -> Seq<u64> {
        match kind {
            Notification::SlotStatus => self.slot_status,
            Notification::Transaction => self.transaction,
            Notification::Account => self.account,
            Notification::Entry => self.entry,
            Notification::Block => self.block,
        }
    }

    /// These samples with `us` appended to the series of `kind`.
    pub open spec fn with_sample(self, kind: Notification, us: u64) -> SamplesView {
        SamplesView {
            slot_status: if kind == Notification::SlotStatus {
                self.slot_status.push(us)
            } else {
                self.slot_status
            },
            transaction: if kind == Notification::Transaction {
                self.transaction.push(us)
            } else {
                self.transaction
            },
            account: if kind == Notification::Account {
                self.account.push(us)
            } else {
                self.account
            },
            entry: if kind == Notification::Entry {
                self.entry.push(us)
            } else {
                self.entry
            },
            block: if kind == Notification::Block {
                self.block.push(us)
            } else {
                self.block
            },
        }
    }

    /// Every series is empty.
    pub open spec fn is_empty(self) -> bool {
        &&& self.slot_status.len() == 0
        &&& self.transaction.len() == 0
        &&& self.account.len() == 0
        &&& self.entry.len() == 0
        &&& self.block.len() == 0
    }
}

/// The report line for non-empty samples.
pub open spec fn report_text(s: SamplesView) -> Seq<char> {
    "shred-to-geyser latency: "@ + stats_text("slot"@, s.slot_status) + " | "@ + stats_text(
        "tx"@,
        s.transaction,
    ) + " | "@ + stats_text("account"@, s.account) + " | "@ + stats_text("entry"@, s.entry)
        + " | "@ + stats_text("block"@, s.block)
}

/// The report on `s`: nothing when there are no samples at all.
pub open spec fn report_of(s: SamplesView) -> Option<Seq<char>> {
    if s.is_empty() {
        None
    } else {
        Some(report_text(s))
    }
}

/// The text of an optional report.
pub open spec fn text_of(r: Option<String>) -> Option<Seq<char>> {
    match r {
        Some(t) => Some(t@),
        None => None,
    }
}

/// Accumulated latency samples, in microseconds, one series per notification.
pub struct LatencySamples {
    pub slot_status_us: Vec<u64>,
    pub transaction_us: Vec<u64>,
    pub account_us: Vec<u64>,
    pub entry_us: Vec<u64>,
    pub block_us: Vec<u64>,
}

impl View for LatencySamples {
    type V = SamplesView;

    open spec fn view(&self) -> SamplesView {
        SamplesView {
            slot_status: self.slot_status_us@,
            transaction: self.transaction_us@,
            account: self.account_us@,
            entry: self.entry_us@,
            block: self.block_us@,
        }
    }
}

impl LatencySamples {
    /// No samples.
    pub fn new() -> (s: Self)
        ensures
            s@ == SamplesView::empty(),
    {
        Self {
            slot_status_us: Vec::new(),
            transaction_us: Vec::new(),
            account_us: Vec::new(),
            entry_us: Vec::new(),
            block_us: Vec::new(),
        }
    }

    /// Drops every sample.
    pub fn clear(&mut self)
        ensures
            final(self)@ == SamplesView::empty(),
    {
        self.slot_status_us.clear();
        self.transaction_us.clear();
        self.account_us.clear();
        self.entry_us.clear();
        self.block_us.clear();
    }

    /// Appends `us` to the series of `kind`.
    pub fn push(&mut self, kind: Notification, us: u64)
        ensures
            final(self)@ == old(self)@.with_sample(kind, us),
    {
        match kind {
            Notification::SlotStatus => self.slot_status_us.push(us),
            Notification::Transaction => self.transaction_us.push(us),
            Notification::Account => self.account_us.push(us),
            Notification::Entry => self.entry_us.push(us),
            Notification::Block => self.block_us.push(us),
        }
    }

    /// Whether there are no samples at all.
    pub fn is_empty(&self) -> (b: bool)
        ensures
            b == self@.is_empty(),
    {
        self.slot_status_us.len() == 0 && self.transaction_us.len() == 0
            && self.account_us.len() == 0 && self.entry_us.len() == 0 && self.block_us.len()
            == 0
    }
}

/// Everything the tracker holds.
pub struct TrackerView {
    /// When the first shred of each tracked slot arrived.
    pub first_shred: Map<u64, Instant>,
    /// The samples accumulated since the last report.
    pub samples: SamplesView,
    /// When the last report was made (or the tracker created).
    pub last_report: Instant,
}

/// Whether a slot is kept by a cleanup at `rooted_slot`: it is at most
/// `SLOT_RETENTION` below the rooted slot.
pub open spec fn is_retained(rooted_slot: u64, slot: u64) -> bool {
    slot + SLOT_RETENTION >= rooted_slot
}

impl TrackerView {
    /// The first shred of `slot` seen at `now`: recorded only if the slot
    /// has no arrival yet.
    pub open spec fn with_first_shred(self, slot: u64, now: Instant) -> TrackerView {
        TrackerView {
            first_shred: if self.first_shred.contains_key(slot) {
                self.first_shred
            } else {
                self.first_shred.insert(slot, now)
            },
            ..self
        }
    }

    /// A latency `us` of a `kind` notification recorded.
    pub open spec fn with_sample(self, kind: Notification, us: u64) -> TrackerView {
        TrackerView { samples: self.samples.with_sample(kind, us), ..self }
    }

    /// The reporting period closed at `now`: samples dropped, report clock
    /// restarted.
    pub open spec fn reported(self, now: Instant) -> TrackerView {
        TrackerView { samples: SamplesView::empty(), last_report: now, ..self }
    }

    /// A `kind` notification for `slot` seen at `now`: when the slot is
    /// tracked, the latency from its first shred to `now` is recorded;
    /// otherwise nothing changes.
    pub open spec fn notified(self, kind: Notification, slot: u64, now: Instant) -> TrackerView {
        if self.first_shred.contains_key(slot) {
            self.with_sample(kind, latency_between(now, self.first_shred[slot]))
        } else {
            self
        }
    }

    /// Whether a report falls due at `now`: at least `REPORT_INTERVAL_SECS`
    /// whole seconds have passed since the last report.
    pub open spec fn report_due(self, now: Instant) -> bool {
        secs_between(now, self.last_report) >= REPORT_INTERVAL_SECS
    }

    /// The report check made at `now`: if a report is due, the period is
    /// closed at `at`; otherwise nothing changes.
    pub open spec fn report_checked(self, now: Instant, at: Instant) -> TrackerView {
        if self.report_due(now) {
            self.reported(at)
        } else {
            self
        }
    }

    /// The report the check at `now` makes.
    pub open spec fn report_at(self, now: Instant) -> Option<Seq<char>> {
        if self.report_due(now) {
            report_of(self.samples)
        } else {
            None
        }
    }

    /// The slots too far below `rooted_slot` forgotten.
    pub open spec fn cleaned(self, rooted_slot: u64) -> TrackerView {
        TrackerView {
            first_shred: self.first_shred.restrict(
                Set::new(|s: u64| is_retained(rooted_slot, s)),
            ),
            ..self
        }
    }
}

/// The low 64 bits of a count of microseconds.
pub open spec fn truncated_micros(us: u128) -> u64 {
    (us % 0x1_0000_0000_0000_0000u128) as u64
}

/// The whole microseconds from `earlier` to `later` (zero when `later` is not
/// after `earlier`).
pub open spec fn micros_between(later: Instant, earlier: Instant) -> u128 {
    duration_micros(duration_between(later, earlier))
}

/// The whole seconds from `earlier` to `later`.
pub open spec fn secs_between(later: Instant, earlier: Instant) -> nat {
    (micros_between(later, earlier) / 1_000_000) as nat
}

/// The latency sample measured at `now` for a first shred that arrived at
/// `arrival`: the whole microseconds between them, kept to 64 bits.
pub open spec fn latency_between(now: Instant, arrival: Instant) -> u64 {
    truncated_micros(micros_between(now, arrival))
}

/// Converts a count of microseconds to a `u64` sample by keeping its low 64
/// bits.
pub fn latency_from_micros(us: u128) -> (r: u64)
    ensures
        r == truncated_micros(us),
{
    (us % 0x1_0000_0000_0000_0000u128) as u64
}

/// Tracks the first shred arrival time per slot and computes latency
/// to various Geyser notification delivery points.
pub struct LatencyTracker {
    first_shred_times: HashMap<u64, Instant>,
    samples: LatencySamples,
    last_report: Instant,
}

impl View for LatencyTracker {
    type V = TrackerView;

    closed spec fn view(&self) -> TrackerView {
        TrackerView {
            first_shred: self.first_shred_times@,
            samples: self.samples@,
            last_report: self.last_report,
        }
    }
}

impl LatencyTracker {
    /// A tracker that knows no slot and holds no sample; the report clock
    /// starts now.
    pub fn new() -> (t: Self)
        ensures
            t@.first_shred == Map::<u64, Instant>::empty(),
            t@.samples == SamplesView::empty(),
    {
        LatencyTracker {
            first_shred_times: HashMap::new(),
            samples: LatencySamples::new(),
            last_report: instant_now(),
        }
    }

    /// The accumulated samples.
    pub fn samples(&self) -> (s: &LatencySamples)
        ensures
            s@ == self@.samples,
    {
        &self.samples
    }

    /// Whether the first shred of `slot` has been recorded (and not cleaned up).
    pub fn is_tracked(&self, slot: u64) -> (b: bool)
        ensures
            b == self@.first_shred.contains_key(slot),
    {
        self.first_shred_times.contains_key(&slot)
    }

    /// When the first shred of `slot` arrived, if it is tracked.
    pub fn first_shred_arrival(&self, slot: u64) -> (r: Option<Instant>)
        ensures
            r == (if self@.first_shred.contains_key(slot) {
                Some(self@.first_shred[slot])
            } else {
                None
            }),
    {
        match self.first_shred_times.get(&slot) {
            Some(t) => Some(*t),
            None => None,
        }
    }

    /// When the last report was made (or the tracker created).
    pub fn last_report(&self) -> (t: Instant)
        ensures
            t == self@.last_report,
    {
        self.last_report
    }

    /// The number of slots whose first-shred time is held.
    pub fn tracked_slot_count(&self) -> (n: usize)
        ensures
            n == self@.first_shred.len(),
    {
        self.first_shred_times.len()
    }

    /// Records that the first shred of `slot` arrived at `now`, unless an
    /// arrival is already recorded for it: the first arrival is kept.
    pub fn record_first_shred_at(&mut self, slot: u64, now: Instant)
        ensures
            final(self)@ == old(self)@.with_first_shred(slot, now),
    {
        if !self.first_shred_times.contains_key(&slot) {
            self.first_shred_times.insert(slot, now);
        }
    }

    /// Record the arrival of the first shred for a slot.
    /// Called when we see SlotStatus::FirstShredReceived from the Geyser pipeline.
    /// A slot already recorded keeps its first arrival time; a new slot gets
    /// the clock's current reading.
    pub fn record_first_shred(&mut self, slot: u64)
        ensures
            old(self)@.first_shred.contains_key(slot) ==> final(self)@ == old(self)@,
            exists|now: Instant| final(self)@ == #[trigger] old(self)@.with_first_shred(slot, now),
    {
        if !self.first_shred_times.contains_key(&slot) {
            let now = instant_now();
            self.record_first_shred_at(slot, now);
        } else {
            assert(old(self)@ == old(self)@.with_first_shred(slot, self.last_report));
        }
    }

    /// The latency, in microseconds, from the first shred of `slot` to `now`;
    /// `None` if the first shred of `slot` is not known.
    pub fn latency_at(&self, slot: u64, now: Instant) -> (r: Option<u64>)
        ensures
            r == (if self@.first_shred.contains_key(slot) {
                Some(latency_between(now, self@.first_shred[slot]))
            } else {
                None
            }),
    {
        match self.first_shred_times.get(&slot) {
            Some(arrival) => {
                let elapsed = duration_since(&now, arrival);
                Some(latency_from_micros(duration_as_micros(&elapsed)))
            },
            None => None,
        }
    }

    /// Get the latency in microseconds from first shred arrival to now for a given slot.
    /// Returns None if we haven't seen the first shred for this slot. The
    /// latency is measured to a clock reading taken during the call.
    pub fn latency_us(&self, slot: u64) -> (r: Option<u64>)
        ensures
            r is Some <==> self@.first_shred.contains_key(slot),
            r matches Some(u) ==> exists|now: Instant|
                u == #[trigger] latency_between(now, self@.first_shred[slot]),
    {
        if self.first_shred_times.contains_key(&slot) {
            let now = instant_now();
            self.latency_at(slot, now)
        } else {
            None
        }
    }

    /// Appends a measured latency to the series of `kind`.
    fn record_sample(&mut self, kind: Notification, us: u64)
        ensures
            final(self)@ == old(self)@.with_sample(kind, us),
    {
        self.samples.push(kind, us);
    }

    /// Records a `kind` notification for `slot` seen at `now`: when the first
    /// shred of `slot` is known, the latency from it to `now` is appended to
    /// the series of `kind`; otherwise nothing changes.
    pub fn record_at(&mut self, kind: Notification, slot: u64, now: Instant)
        ensures
            final(self)@ == old(self)@.notified(kind, slot, now),
    {
        if let Some(us) = self.latency_at(slot, now) {
            self.record_sample(kind, us);
        }
    }

    /// Records the latency of a `kind` notification for `slot`, measured to a
    /// clock reading taken during the call, if the first shred of `slot` is
    /// known; otherwise nothing changes.
    fn record_latency(&mut self, kind: Notification, slot: u64)
        ensures
            !old(self)@.first_shred.contains_key(slot) ==> final(self)@ == old(self)@,
            exists|now: Instant| final(self)@ == #[trigger] old(self)@.notified(kind, slot, now),
    {
        if self.first_shred_times.contains_key(&slot) {
            let now = instant_now();
            self.record_at(kind, slot, now);
        } else {
            assert(old(self)@ == old(self)@.notified(kind, slot, self.last_report));
        }
    }

    /// Whether a report falls due at `now`: at least `REPORT_INTERVAL_SECS`
    /// whole seconds have passed since the last report.
    pub fn is_report_due(&self, now: &Instant) -> (due: bool)
        ensures
            due == self@.report_due(*now),
    {
        let since_last = duration_since(now, &self.last_report);
        duration_as_secs(&since_last) >= REPORT_INTERVAL_SECS
    }

    /// Closes the current reporting period at `now`: returns the report on the
    /// accumulated samples (none when there are none), drops the samples and
    /// restarts the report clock from `now`.
    fn take_report(&mut self, now: Instant) -> (r: Option<String>)
        ensures
            text_of(r) == report_of(old(self)@.samples),
            final(self)@ == old(self)@.reported(now),
    {
        let report = Self::report_inner(&self.samples);
        self.samples.clear();
        self.last_report = now;
        report
    }

    /// The report check with the clock read as `now`, and, if a report is
    /// due, as `at` once it is made: closes the period at `at` and returns
    /// its report when `REPORT_INTERVAL_SECS` have passed from the last
    /// report to `now`; otherwise nothing changes.
    pub fn report_if_due(&mut self, now: Instant, at: Instant) -> (r: Option<String>)
        ensures
            final(self)@ == old(self)@.report_checked(now, at),
            text_of(r) == old(self)@.report_at(now),
    {
        if self.is_report_due(&now) {
            self.take_report(at)
        } else {
            None
        }
    }

    /// Check if it's time to report and do so: the time since the last report
    /// is measured to a clock reading `now` taken during the call; once it
    /// reaches `REPORT_INTERVAL_SECS`, the period is closed at a later reading
    /// and its report returned; otherwise nothing changes.
    pub fn maybe_report(&mut self) -> (r: Option<String>)
        ensures
            exists|now: Instant, at: Instant|
                #![trigger old(self)@.report_checked(now, at)]
                final(self)@ == old(self)@.report_checked(now, at) && text_of(r) == old(
                    self,
                )@.report_at(now),
    {
        let now = instant_now();
        if self.is_report_due(&now) {
            let at = instant_now();
            let r = self.take_report(at);
            assert(final(self)@ == old(self)@.report_checked(now, at));
            r
        } else {
            assert(self@ == old(self)@.report_checked(now, now));
            None
        }
    }

    /// Record a slot status notification latency; this is also when a report
    /// falls due (see `maybe_report`), and the report, if one is made, is
    /// returned for the caller to log. The latency is measured to a clock
    /// reading `now`, the report check to a later reading `later`, and a
    /// report closes the period at a reading `at`.
    pub fn record_slot_status(&mut self, slot: u64) -> (r: Option<String>)
        ensures
            !old(self)@.first_shred.contains_key(slot) ==> final(self)@ == old(self)@ && r is None,
            old(self)@.first_shred.contains_key(slot) ==> exists|now: Instant, later: Instant, at: Instant|
                #![trigger old(self)@.notified(Notification::SlotStatus, slot, now).report_checked(later, at)]
                {
                    let grown = old(self)@.notified(Notification::SlotStatus, slot, now);
                    &&& final(self)@ == grown.report_checked(later, at)
                    &&& text_of(r) == grown.report_at(later)
                },
    {
        if !self.first_shred_times.contains_key(&slot) {
            return None;
        }
        let now = instant_now();
        self.record_at(Notification::SlotStatus, slot, now);
        let ghost grown = self@;
        let r = self.maybe_report();
        proof {
            let (later, at) = choose|later: Instant, at: Instant|
                #![trigger grown.report_checked(later, at)]
                self@ == grown.report_checked(later, at) && text_of(r) == grown.report_at(later);
            assert(self@ == old(self)@.notified(Notification::SlotStatus, slot, now).report_checked(later, at));
        }
        r
    }

    /// Record a transaction notification latency
    pub fn record_transaction(&mut self, slot: u64)
        ensures
            !old(self)@.first_shred.contains_key(slot) ==> final(self)@ == old(self)@,
            exists|now: Instant|
                final(self)@ == #[trigger] old(self)@.notified(Notification::Transaction, slot, now),
    {
        self.record_latency(Notification::Transaction, slot);
    }

    /// Record an account notification latency
    pub fn record_account(&mut self, slot: u64)
        ensures
            !old(self)@.first_shred.contains_key(slot) ==> final(self)@ == old(self)@,
            exists|now: Instant|
                final(self)@ == #[trigger] old(self)@.notified(Notification::Account, slot, now),
    {
        self.record_latency(Notification::Account, slot);
    }

    /// Record an entry notification latency
    pub fn record_entry(&mut self, slot: u64)
        ensures
            !old(self)@.first_shred.contains_key(slot) ==> final(self)@ == old(self)@,
            exists|now: Instant|
                final(self)@ == #[trigger] old(self)@.notified(Notification::Entry, slot, now),
    {
        self.record_latency(Notification::Entry, slot);
    }

    /// Record a block metadata notification latency
    pub fn record_block(&mut self, slot: u64)
        ensures
            !old(self)@.first_shred.contains_key(slot) ==> final(self)@ == old(self)@,
            exists|now: Instant|
                final(self)@ == #[trigger] old(self)@.notified(Notification::Block, slot, now),
    {
        self.record_latency(Notification::Block, slot);
    }

    /// The report line on `samples`, or `None` when there are no samples at all.
    pub fn report_inner(samples: &LatencySamples) -> (r: Option<String>)
        ensures
            text_of(r) == report_of(samples@),
    {
        if samples.is_empty() {
            return None;
        }
        let mut line = String::new();
        line.append("shred-to-geyser latency: ");
        let slot = format_stats("slot", samples.slot_status_us.as_slice());
        line.append(slot.as_str());
        line.append(" | ");
        let tx = format_stats("tx", samples.transaction_us.as_slice());
        line.append(tx.as_str());
        line.append(" | ");
        let account = format_stats("account", samples.account_us.as_slice());
        line.append(account.as_str());
        line.append(" | ");
        let entry = format_stats("entry", samples.entry_us.as_slice());
        line.append(entry.as_str());
        line.append(" | ");
        let block = format_stats("block", samples.block_us.as_slice());
        line.append(block.as_str());
        Some(line)
    }

    /// Clean up old slot entries to prevent unbounded memory growth.
    /// Call periodically (e.g. when a slot is rooted). Keeps exactly the slots
    /// at most `SLOT_RETENTION` below `rooted_slot`.
    pub fn cleanup_old_slots(&mut self, rooted_slot: u64)
        ensures
            final(self)@ == old(self)@.cleaned(rooted_slot),
    {
        let ghost before = self.first_shred_times@;
        let ghost retained = Set::new(|s: u64| is_retained(rooted_slot, s));
        let floor = rooted_slot.saturating_sub(SLOT_RETENTION);
        let ghost keys = spec_keys_iter(&self.first_shred_times).remaining();
        let ghost mut visited: int = 0;
        let mut stale: Vec<u64> = Vec::new();
        for slot in it: self.first_shred_times.keys()
            invariant
                before == self.first_shred_times@,
                floor == rooted_slot.saturating_sub(SLOT_RETENTION),
                it.seq() == keys,
                visited == it.index(),
                forall|j: int|
                    0 <= j < stale@.len() ==> !is_retained(rooted_slot, #[trigger] stale@[j])
                        && before.contains_key(stale@[j]),
                forall|j: int|
                    0 <= j < visited && !is_retained(rooted_slot, *#[trigger] keys[j])
                        ==> stale@.contains(*keys[j]),
        {
            let ghost seen = stale@;
            if *slot < floor {
                stale.push(*slot);
            }
            proof {
                visited = visited + 1;
                assert forall|j: int|
                    0 <= j < visited && !is_retained(
                        rooted_slot,
                        *#[trigger] keys[j],
                    ) implies stale@.contains(*keys[j]) by {
                    if j < visited - 1 {
                        let k = choose|k: int| 0 <= k < seen.len() && seen[k] == *keys[j];
                        assert(stale@[k] == seen[k]);
                    } else {
                        assert(stale@[stale@.len() - 1] == *slot);
                    }
                }
            }
        }
        proof {
            assert forall|k: u64| before.contains_key(k) && !is_retained(rooted_slot, k) implies
                #[trigger] stale@.contains(k) by {
                assert(visited == keys.len());
                assert(keys.unref().to_set().contains(k));
                let j = choose|j: int| 0 <= j < keys.unref().len() && keys.unref()[j] == k;
                assert(*keys[j] == k);
            }
        }
        let mut i: usize = 0;
        while i < stale.len()
            invariant
                0 <= i <= stale@.len(),
                forall|j: int|
                    0 <= j < stale@.len() ==> !is_retained(rooted_slot, #[trigger] stale@[j])
                        && before.contains_key(stale@[j]),
                forall|k: u64| before.contains_key(k) && !is_retained(rooted_slot, k) ==> #[trigger]
                    stale@.contains(k),
                self.first_shred_times@ == before.restrict(
                    Set::new(|k: u64| !stale@.take(i as int).contains(k)),
                ),
                self.samples@ == old(self).samples@,
                self.last_report == old(self).last_report,
            decreases stale@.len() - i,
        {
            let slot = stale[i];
            let ghost prev = self.first_shred_times@;
            self.first_shred_times.remove(&slot);
            let ghost done = stale@.take(i as int);
            assert(stale@.take(i + 1) == done.push(slot));
            assert forall|k: u64| #[trigger] done.push(slot).contains(k) <==> (done.contains(k)
                || k == slot) by {
                if done.contains(k) {
                    let j = choose|j: int| 0 <= j < done.len() && done[j] == k;
                    assert(done.push(slot)[j] == k);
                }
                if k == slot {
                    assert(done.push(slot)[done.len() as int] == k);
                }
                if done.push(slot).contains(k) && k != slot {
                    let j = choose|j: int| 0 <= j < done.len() + 1 && done.push(slot)[j] == k;
                    assert(done[j] == k);
                }
            }
            i = i + 1;
            assert(self.first_shred_times@ =~= before.restrict(
                Set::new(|k: u64| !stale@.take(i as int).contains(k)),
            ));
        }
        assert(stale@.take(i as int) == stale@);
        assert(self.first_shred_times@ =~= before.restrict(retained));
    }
}

/// The first arrival of a slot's first shred is the one kept: once a slot is
/// recorded, later arrivals change nothing, and the slot is tracked from the
/// first one on.
pub proof fn lemma_first_arrival_kept(v: TrackerView, slot: u64, first: Instant, later: Instant)
    ensures
        v.with_first_shred(slot, first).first_shred.contains_key(slot),
        v.with_first_shred(slot, first).with_first_shred(slot, later) == v.with_first_shred(
            slot,
            first,
        ),
        v.with_first_shred(slot, first).first_shred[slot] == (if v.first_shred.contains_key(
            slot,
        ) {
            v.first_shred[slot]
        } else {
            first
        }),
{
}

/// A latency is recorded in the series of its own notification and nowhere
/// else, after the samples already there.
pub proof fn lemma_sample_in_own_series(v: TrackerView, kind: Notification, us: u64)
    ensures
        v.with_sample(kind, us).samples.series(kind) == v.samples.series(kind).push(us),
        forall|other: Notification|
            other != kind ==> #[trigger] v.with_sample(kind, us).samples.series(other)
                == v.samples.series(other),
        v.with_sample(kind, us).first_shred == v.first_shred,
{
    assert forall|other: Notification|
        other != kind implies #[trigger] v.with_sample(kind, us).samples.series(other)
        == v.samples.series(other) by {
        match other {
            Notification::SlotStatus => {},
            Notification::Transaction => {},
            Notification::Account => {},
            Notification::Entry => {},
            Notification::Block => {},
        }
    }
}

/// A report closes its period: a report made right after it has nothing to
/// say.
pub proof fn lemma_report_resets(v: TrackerView, now: Instant, later: Instant)
    ensures
        report_of(v.reported(now).samples) is None,
        v.reported(now).reported(later).samples == v.reported(now).samples,
        v.reported(now).first_shred == v.first_shred,
{
}

/// A report is made exactly when some series holds a sample.
pub proof fn lemma_report_iff_samples(s: SamplesView)
    ensures
        report_of(s) is Some <==> exists|kind: Notification| #[trigger] s.series(kind).len() > 0,
{
    if !s.is_empty() {
        if s.slot_status.len() > 0 {
            assert(s.series(Notification::SlotStatus).len() > 0);
        } else if s.transaction.len() > 0 {
            assert(s.series(Notification::Transaction).len() > 0);
        } else if s.account.len() > 0 {
            assert(s.series(Notification::Account).len() > 0);
        } else if s.entry.len() > 0 {
            assert(s.series(Notification::Entry).len() > 0);
        } else {
            assert(s.series(Notification::Block).len() > 0);
        }
    }
}

/// A cleanup keeps the arrival of every slot at most `SLOT_RETENTION` below
/// the rooted slot, forgets every other, and leaves the samples alone.
pub proof fn lemma_cleanup_window(v: TrackerView, rooted_slot: u64, slot: u64)
    ensures
        v.cleaned(rooted_slot).first_shred.contains_key(slot) <==> (v.first_shred.contains_key(
            slot,
        ) && is_retained(rooted_slot, slot)),
        v.cleaned(rooted_slot).first_shred.contains_key(slot) ==> v.cleaned(
            rooted_slot,
        ).first_shred[slot] == v.first_shred[slot],
        v.cleaned(rooted_slot).samples == v.samples,
        v.cleaned(rooted_slot).last_report == v.last_report,
{
}

/// Cleaning up again at the same or a later root is the same as cleaning up
/// once at the later root: repeated cleanups are idempotent and the retained
/// window only moves forward.
pub proof fn lemma_cleanup_compose(v: TrackerView, earlier: u64, later: u64)
    requires
        earlier <= later,
    ensures
        v.cleaned(earlier).cleaned(later) == v.cleaned(later),
        v.cleaned(later).cleaned(later) == v.cleaned(later),
{
    assert(v.cleaned(earlier).cleaned(later).first_shred =~= v.cleaned(later).first_shred);
    assert(v.cleaned(later).cleaned(later).first_shred =~= v.cleaned(later).first_shred);
}

/// One operation on the tracker, with the clock readings it takes: what
/// `record_first_shred`, the `record_*` functions, `maybe_report` and
/// `cleanup_old_slots` do, one step each (`record_slot_status` is a
/// `Notify` followed by a `ReportCheck`).
pub enum Step {
    FirstShred { slot: u64, now: Instant },
    Notify { kind: Notification, slot: u64, now: Instant },
    ReportCheck { now: Instant, at: Instant },
    Cleanup { rooted_slot: u64 },
}

/// The tracker after one step.
pub open spec fn apply(v: TrackerView, step: Step) -> TrackerView {
    match step {
        Step::FirstShred { slot, now } => v.with_first_shred(slot, now),
        Step::Notify { kind, slot, now } => v.notified(kind, slot, now),
        Step::ReportCheck { now, at } => v.report_checked(now, at),
        Step::Cleanup { rooted_slot } => v.cleaned(rooted_slot),
    }
}

/// The tracker after a sequence of steps.
pub open spec fn run(v: TrackerView, steps: Seq<Step>) -> TrackerView
    decreases steps.len(),
{
    if steps.len() == 0 {
        v
    } else {
        apply(run(v, steps.drop_last()), steps.last())
    }
}

/// Over any sequence of operations, the report clock moves only in a report
/// check that found at least `REPORT_INTERVAL_SECS` since the previous
/// report, and that step leaves every series empty; and samples disappear
/// only in such a step.
pub proof fn lemma_report_clock_over_runs(v: TrackerView, steps: Seq<Step>, i: int)
    requires
        0 <= i < steps.len(),
    ensures
        ({
            let before = run(v, steps.take(i));
            let after = run(v, steps.take(i + 1));
            &&& after.last_report != before.last_report ==> {
                &&& steps[i] matches Step::ReportCheck { now, at }
                &&& before.report_due(now)
                &&& after.last_report == at
                &&& after.samples == SamplesView::empty()
            }
            &&& (!before.samples.is_empty() && after.samples.is_empty()) ==> {
                &&& steps[i] matches Step::ReportCheck { now, at }
                &&& before.report_due(now)
            }
            &&& after.first_shred != before.first_shred ==> (steps[i] is FirstShred
                || steps[i] is Cleanup)
        }),
{
    let prefix = steps.take(i + 1);
    assert(prefix.drop_last() == steps.take(i));
    assert(prefix.last() == steps[i]);
    let before = run(v, steps.take(i));
    match steps[i] {
        Step::Notify { kind, slot, now } => {
            if before.first_shred.contains_key(slot) {
                let us = latency_between(now, before.first_shred[slot]);
                match kind {
                    Notification::SlotStatus => {},
                    Notification::Transaction => {},
                    Notification::Account => {},
                    Notification::Entry => {},
                    Notification::Block => {},
                }
                assert(before.samples.with_sample(kind, us).series(kind).len() > 0);
            }
        },
        _ => {},
    }
}

/// The label of a notification's series in the report line.
pub open spec fn series_label(kind: Notification) -> Seq<char> {
    match kind {
        Notification::SlotStatus => "slot"@,
        Notification::Transaction => "tx"@,
        Notification::Account => "account"@,
        Notification::Entry => "entry"@,
        Notification::Block => "block"@,
    }
}

/// The segment of series `k` in the report line when the only sample held
/// is `us`, of a `kind` notification.
pub open spec fn lone_sample_segment(k: Notification, kind: Notification, us: u64) -> Seq<char> {
    if k == kind {
        series_label(k) + ": n="@ + decimal(1) + " avg="@ + decimal(us as nat) + "us p50="@
            + decimal(us as nat) + "us p99="@ + decimal(us as nat) + "us max="@ + decimal(
            us as nat,
        ) + "us"@
    } else {
        series_label(k) + ": no samples"@
    }
}

/// Each labelled segment of the report line speaks of its own series: when
/// the only sample held is `us`, of a `kind` notification, the report gives
/// that sample as count, mean, median, 99th percentile and maximum under
/// the label of `kind`, and "no samples" under every other label, in the
/// order slot, tx, account, entry, block.
pub proof fn lemma_report_of_lone_sample(kind: Notification, us: u64)
    ensures
        report_of(SamplesView::empty().with_sample(kind, us)) == Some(
            "shred-to-geyser latency: "@ + lone_sample_segment(Notification::SlotStatus, kind, us)
                + " | "@ + lone_sample_segment(Notification::Transaction, kind, us) + " | "@
                + lone_sample_segment(Notification::Account, kind, us) + " | "@
                + lone_sample_segment(Notification::Entry, kind, us) + " | "@
                + lone_sample_segment(Notification::Block, kind, us),
        ),
{
    lemma_stats_of_one(us);
    let s = SamplesView::empty().with_sample(kind, us);
    assert(Seq::<u64>::empty().push(us) =~= seq![us]);
    assert(!s.is_empty()) by {
        assert(s.series(kind).len() == 1) by {
            match kind {
                Notification::SlotStatus => {},
                Notification::Transaction => {},
                Notification::Account => {},
                Notification::Entry => {},
                Notification::Block => {},
            }
        }
    }
    assert forall|k: Notification| #[trigger] stats_text(series_label(k), s.series(k))
        == lone_sample_segment(k, kind, us) by {
        if k == kind {
            assert(s.series(k) == seq![us]) by {
                match kind {
                    Notification::SlotStatus => {},
                    Notification::Transaction => {},
                    Notification::Account => {},
                    Notification::Entry => {},
                    Notification::Block => {},
                }
            }
        } else {
            assert(s.series(k) == Seq::<u64>::empty()) by {
                match kind {
                    Notification::SlotStatus => {},
                    Notification::Transaction => {},
                    Notification::Account => {},
                    Notification::Entry => {},
                    Notification::Block => {},
                }
            }
        }
    }
    assert(stats_text(series_label(Notification::SlotStatus), s.series(Notification::SlotStatus))
        == lone_sample_segment(Notification::SlotStatus, kind, us));
    assert(stats_text(series_label(Notification::Transaction), s.series(Notification::Transaction))
        == lone_sample_segment(Notification::Transaction, kind, us));
    assert(stats_text(series_label(Notification::Account), s.series(Notification::Account))
        == lone_sample_segment(Notification::Account, kind, us));
    assert(stats_text(series_label(Notification::Entry), s.series(Notification::Entry))
        == lone_sample_segment(Notification::Entry, kind, us));
    assert(stats_text(series_label(Notification::Block), s.series(Notification::Block))
        == lone_sample_segment(Notification::Block, kind, us));
}

} // verus!
