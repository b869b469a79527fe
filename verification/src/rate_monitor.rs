//! Sliding-window request counter.
//!
//! The window is a ring with one slot per second. A slot holds a counter and
//! the second it was last reset for. Slots are reset lazily, by the next
//! write that lands on them, so a reader decides from the stamp alone whether
//! a slot still counts.

use crate::config::RateMonitorConfig;
use std::time::Duration;
use std::time::SystemTime;
use std::time::SystemTimeError;
use std::time::UNIX_EPOCH;
use vstd::prelude::*;

verus! {

/// One second's worth of the window.
#[derive(Clone, Copy, Debug)]
pub struct Slot {
    /// Requests counted in the second `stamp`.
    pub count: u64,
    /// The second this slot was last reset for. A slot never written is
    /// stamped 0 and has counted nothing.
    pub stamp: u64,
}

/// Whether a slot stamped `stamp` still counts at second `now`: less than
/// `window` seconds lie between the two. A stamp that lies ahead of `now` is
/// zero seconds away.
pub open spec fn slot_live(stamp: u64, now: u64, window: u64) -> bool {
    now <= stamp || now - stamp < window
}

/// What a slot adds to the rate at second `now`.
pub open spec fn slot_weight(slot: Slot, now: u64, window: u64) -> nat {
    if slot_live(slot.stamp, now, window) {
        slot.count as nat
    } else {
        0
    }
}

/// The requests in the trailing window: the counters of all live slots.
pub open spec fn window_total(slots: Seq<Slot>, now: u64, window: u64) -> nat
    decreases slots.len(),
{
    if slots.len() == 0 {
        0
    } else {
        window_total(slots.drop_last(), now, window) + slot_weight(slots.last(), now, window)
    }
}

/// The slot that second `now` writes to.
pub open spec fn slot_index(slots: Seq<Slot>, now: u64) -> int {
    now as int % slots.len() as int
}

/// The window after one request at second `now`: the slot of `now` is reset
/// if it is stamped for another second, then counts one more. A counter that
/// has reached `u64::MAX` stays there.
pub open spec fn recorded(slots: Seq<Slot>, now: u64) -> Seq<Slot>
    recommends
        slots.len() > 0,
{
    let idx = slot_index(slots, now);
    let before = slots[idx];
    let count: u64 = if before.stamp != now {
        1
    } else if before.count < u64::MAX {
        (before.count + 1) as u64
    } else {
        u64::MAX
    };
    slots.update(idx, Slot { count, stamp: now })
}

/// A count as the monitor reports it: itself, or `usize::MAX` if it is larger.
pub open spec fn reported(total: nat) -> usize {
    if total <= usize::MAX {
        total as usize
    } else {
        usize::MAX
    }
}

/// The window after `k` requests that all fall in second `now`.
pub open spec fn recorded_times(slots: Seq<Slot>, now: u64, k: nat) -> Seq<Slot>
    decreases k,
{
    if k == 0 {
        slots
    } else {
        recorded(recorded_times(slots, now, (k - 1) as nat), now)
    }
}

/// `std::time::SystemTime`: a reading of the wall clock, carried through
/// unread.
#[verifier::external_type_specification]
#[verifier::external_body]
pub struct ExSystemTime(SystemTime);

/// `std::time::SystemTimeError`: what measuring from a later time gives,
/// carried through unread.
#[verifier::external_type_specification]
#[verifier::external_body]
pub struct ExSystemTimeError(SystemTimeError);

/// `SystemTime::now`: the wall clock's reading. Nothing is claimed of it.
#[verifier::external_body]
fn wall_clock() -> (reading: SystemTime) {
    SystemTime::now()
}

/// `SystemTime::duration_since`, measured from `UNIX_EPOCH`: the time from
/// the epoch to `reading`, or an error for a reading that lies before the
/// epoch. Nothing is claimed of either.
#[verifier::external_body]
fn since_epoch(reading: &SystemTime) -> (elapsed: Result<Duration, SystemTimeError>) {
    reading.duration_since(UNIX_EPOCH)
}

/// `Duration::as_secs`: the whole seconds in `elapsed`. Nothing is claimed of
/// the number.
#[verifier::external_body]
fn whole_seconds(elapsed: &Duration) -> (secs: u64) {
    elapsed.as_secs()
}

/// A window of per-second request counters.
pub struct RateMonitor {
    config: RateMonitorConfig,
    slots: Vec<Slot>,
}

impl View for RateMonitor {
    type V = Seq<Slot>;

    /// The slots of the ring; second `s` writes to slot `s % window_secs`.
    closed spec fn view(&self) -> Seq<Slot> {
        self.slots@
    }
}

impl RateMonitor {
    /// The settings are valid and the ring has one slot per second of the
    /// window.
    pub closed spec fn wf(&self) -> bool {
        self.config.valid() && self.slots@.len() == self.config.window_secs
    }

    /// The settings the monitor was made with.
    pub closed spec fn settings(&self) -> RateMonitorConfig {
        self.config
    }

    /// A monitor with every slot empty and never written.
    pub fn new(config: RateMonitorConfig) -> (monitor: Self)
        requires
            config.valid(),
        ensures
            monitor.wf(),
            monitor.settings() == config,
            monitor@ == Seq::new(config.window_secs as nat, |i: int| Slot { count: 0, stamp: 0 }),
    {
        let window = config.window_secs as usize;
        let mut slots: Vec<Slot> = Vec::new();
        let mut i: usize = 0;
        while i < window
            invariant
                i <= window,
                slots@ == Seq::new(i as nat, |k: int| Slot { count: 0, stamp: 0 }),
            decreases window - i,
        {
            slots.push(Slot { count: 0, stamp: 0 });
            i += 1;
        }
        RateMonitor { config, slots }
    }

    /// The settings the monitor was made with; the window has one slot per
    /// second of `window_secs`.
    pub fn config(&self) -> (config: RateMonitorConfig)
        requires
            self.wf(),
        ensures
            config == self.settings(),
            config.valid(),
            self@.len() == config.window_secs,
    {
        self.config
    }

    /// The requests counted in the `window_secs` seconds that end at `now`.
    pub fn current_rate(&self, now: u64) -> (rate: usize)
        requires
            self.wf(),
        ensures
            rate == reported(window_total(self@, now, self.settings().window_secs)),
    {
        let window = self.config.window_secs;
        let mut total: u128 = 0;
        let mut i: usize = 0;
        while i < self.slots.len()
            invariant
                i <= self.slots.len(),
                self.slots.len() <= u64::MAX,
                window >= 1,
                total == window_total(self.slots@.take(i as int), now, window),
                total <= i * u64::MAX,
            decreases self.slots.len() - i,
        {
            let slot = self.slots[i];
            proof {
                assert(self.slots@.take(i + 1).drop_last() == self.slots@.take(i as int));
            }
            if now.saturating_sub(slot.stamp) < window {
                total = total + slot.count as u128;
            }
            i += 1;
        }
        proof {
            assert(self.slots@.take(i as int) == self.slots@);
        }
        if total > usize::MAX as u128 {
            usize::MAX
        } else {
            total as usize
        }
    }

    /// The wall clock in whole seconds since the Unix epoch; nothing for a
    /// clock that reads earlier than the epoch.
    pub fn checked_now_secs() -> Option<u64> {
        let reading = wall_clock();
        match since_epoch(&reading) {
            Ok(elapsed) => Some(whole_seconds(&elapsed)),
            Err(_) => None,
        }
    }

    /// The wall clock in whole seconds since the Unix epoch. A clock that
    /// reads earlier than the epoch is taken as second 0.
    pub fn now_secs() -> u64 {
        match Self::checked_now_secs() {
            Some(secs) => secs,
            None => 0,
        }
    }

    /// Counts one request in the current second of the wall clock and
    /// returns the rate right after it. Call this on every accepted request.
    pub fn record(&mut self) -> (rate: usize)
        requires
            old(self).wf(),
        ensures
            final(self).wf(),
            final(self).settings() == old(self).settings(),
            exists|now: u64|
                {
                    &&& final(self)@ == #[trigger] recorded(old(self)@, now)
                    &&& rate == reported(
                        window_total(final(self)@, now, final(self).settings().window_secs),
                    )
                },
    {
        let now = Self::now_secs();
        self.record_at(now)
    }

    /// Counts one request in the second `now` and returns the rate right
    /// after it.
    pub fn record_at(&mut self, now: u64) -> (rate: usize)
        requires
            old(self).wf(),
        ensures
            final(self).wf(),
            final(self).settings() == old(self).settings(),
            final(self)@ == recorded(old(self)@, now),
            rate == reported(window_total(final(self)@, now, final(self).settings().window_secs)),
    {
        let idx = (now % self.config.window_secs) as usize;
        let before = self.slots[idx];
        let count: u64 = if before.stamp != now {
            1
        } else if before.count < u64::MAX {
            before.count + 1
        } else {
            u64::MAX
        };
        self.slots.set(idx, Slot { count, stamp: now });
        self.current_rate(now)
    }
}

/// Every slot adds to the total, so the total is at least what one slot adds.
proof fn lemma_total_covers_slot(slots: Seq<Slot>, now: u64, window: u64, i: int)
    requires
        0 <= i < slots.len(),
    ensures
        window_total(slots, now, window) >= slot_weight(slots[i], now, window),
    decreases slots.len(),
{
    if i < slots.len() - 1 {
        lemma_total_covers_slot(slots.drop_last(), now, window, i);
    }
}

/// After `k >= 1` requests in second `now`, the slot of `now` is stamped
/// `now` and has counted them all, up to the counter's limit.
proof fn lemma_burst_slot(slots: Seq<Slot>, now: u64, k: nat)
    requires
        slots.len() > 0,
        k >= 1,
    ensures
        recorded_times(slots, now, k).len() == slots.len(),
        recorded_times(slots, now, k)[slot_index(slots, now)].stamp == now,
        recorded_times(slots, now, k)[slot_index(slots, now)].count >= k || recorded_times(
            slots,
            now,
            k,
        )[slot_index(slots, now)].count == u64::MAX,
    decreases k,
{
    if k > 1 {
        lemma_burst_slot(slots, now, (k - 1) as nat);
    } else {
        assert(recorded_times(slots, now, 0) == slots);
    }
}

/// Requests that arrive within one second are all counted: after `k`
/// calls at second `now`, the rate at `now` is at least `k`.
pub proof fn law_burst_is_counted(slots: Seq<Slot>, now: u64, window: u64, k: nat)
    requires
        slots.len() == window,
        window >= 1,
        k <= u64::MAX,
    ensures
        window_total(recorded_times(slots, now, k), now, window) >= k,
{
    if k >= 1 {
        lemma_burst_slot(slots, now, k);
        lemma_total_covers_slot(
            recorded_times(slots, now, k),
            now,
            window,
            slot_index(slots, now),
        );
    }
}

/// A window that nothing was written to since second `last` is empty once
/// `window` seconds have passed: the rate at any `now >= last + window` is 0.
pub proof fn law_idle_window_drains(slots: Seq<Slot>, last: u64, now: u64, window: u64)
    requires
        window >= 1,
        forall|i: int| 0 <= i < slots.len() ==> (#[trigger] slots[i]).stamp <= last,
        now - last >= window,
    ensures
        window_total(slots, now, window) == 0,
    decreases slots.len(),
{
    if slots.len() > 0 {
        assert(slots.last() == slots[slots.len() - 1]);
        assert forall|i: int| 0 <= i < slots.drop_last().len() implies (
        #[trigger] slots.drop_last()[i]).stamp <= last by {
            assert(slots.drop_last()[i] == slots[i]);
        }
        law_idle_window_drains(slots.drop_last(), last, now, window);
    }
}

} // verus!
