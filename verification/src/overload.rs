//! Detection of sustained load.
//!
//! Once per tick the detector is shown the current rate and a reading of a
//! monotonic clock. It reports when the rate has stayed at or above the
//! threshold for the configured number of whole seconds, then starts over.
//! The caller owns the clock and the waiting between ticks.

use crate::config::RateMonitorConfig;
use crate::rate_monitor::RateMonitor;
use vstd::prelude::*;

verus! {

/// Nanoseconds in a second; clock readings are in nanoseconds.
pub const NANOS_PER_SEC: u128 = 1_000_000_000;

/// The whole seconds from reading `since` to reading `now`; none if `now`
/// lies before `since`.
pub open spec fn whole_secs_between(since: u128, now: u128) -> nat {
    if now >= since {
        ((now - since) / (NANOS_PER_SEC as int)) as nat
    } else {
        0
    }
}

/// When the excursion that a tick at `now` belongs to began: at the marker,
/// or at `now` itself if no excursion was under way.
pub open spec fn excursion_start(marker: Option<u128>, now: u128) -> u128 {
    match marker {
        Some(since) => since,
        None => now,
    }
}

/// Whether a tick reports sustained load: the rate is at or above the
/// threshold and the excursion has lasted `sustained_secs` whole seconds.
pub open spec fn tick_fires(
    threshold: usize,
    sustained_secs: u64,
    marker: Option<u128>,
    rate: usize,
    now: u128,
) -> bool {
    rate >= threshold && whole_secs_between(excursion_start(marker, now), now) >= sustained_secs
}

/// The marker after a tick: kept, or set to `now`, while the rate is at or
/// above the threshold and nothing was reported; cleared otherwise.
pub open spec fn tick_marker(
    threshold: usize,
    sustained_secs: u64,
    marker: Option<u128>,
    rate: usize,
    now: u128,
) -> Option<u128> {
    if rate >= threshold && !tick_fires(threshold, sustained_secs, marker, rate, now) {
        Some(excursion_start(marker, now))
    } else {
        None
    }
}

/// What one tick shows the detector.
pub struct Sample {
    /// The rate at the tick.
    pub rate: usize,
    /// The monotonic clock at the tick, in nanoseconds.
    pub at: u128,
}

/// The marker after the ticks `samples`, in order, starting from `marker`.
pub open spec fn marker_after(
    threshold: usize,
    sustained_secs: u64,
    marker: Option<u128>,
    samples: Seq<Sample>,
) -> Option<u128>
    decreases samples.len(),
{
    if samples.len() == 0 {
        marker
    } else {
        tick_marker(
            threshold,
            sustained_secs,
            marker_after(threshold, sustained_secs, marker, samples.drop_last()),
            samples.last().rate,
            samples.last().at,
        )
    }
}

/// How many of the ticks `samples`, in order and starting from `marker`,
/// report sustained load.
pub open spec fn firings(
    threshold: usize,
    sustained_secs: u64,
    marker: Option<u128>,
    samples: Seq<Sample>,
) -> nat
    decreases samples.len(),
{
    if samples.len() == 0 {
        0
    } else {
        let before = marker_after(threshold, sustained_secs, marker, samples.drop_last());
        let earlier = firings(threshold, sustained_secs, marker, samples.drop_last());
        if tick_fires(threshold, sustained_secs, before, samples.last().rate, samples.last().at) {
            earlier + 1
        } else {
            earlier
        }
    }
}

/// Every tick of `run` is at or above the threshold.
pub open spec fn all_loaded(threshold: usize, run: Seq<Sample>) -> bool {
    forall|i: int| 0 <= i < run.len() ==> (#[trigger] run[i]).rate >= threshold
}

/// Every tick of `run` comes less than `sustained_secs` whole seconds after
/// the first.
pub open spec fn all_early(sustained_secs: u64, run: Seq<Sample>) -> bool {
    forall|i: int|
        0 <= i < run.len() ==> whole_secs_between(run[0].at, (#[trigger] run[i]).at)
            < sustained_secs
}

/// Watches the rate for load that lasts.
#[derive(Clone, Copy, Debug)]
pub struct SustainedDetector {
    /// Rate at or above which a tick counts as loaded.
    pub threshold: usize,
    /// Whole seconds an excursion has to last before it is reported.
    pub sustained_secs: u64,
    /// Clock reading at which the current excursion began, if one is under way.
    pub above_since: Option<u128>,
}

/// What one tick of the monitor's loop found.
#[derive(Clone, Copy, Debug)]
pub struct Tick {
    /// The rate at the tick.
    pub rate: usize,
    /// Whether the tick reports sustained load.
    pub fired: bool,
}

impl SustainedDetector {
    /// A detector with no excursion under way.
    pub fn new(config: &RateMonitorConfig) -> (detector: Self)
        ensures
            detector.threshold == config.threshold,
            detector.sustained_secs == config.sustained_secs,
            detector.above_since is None,
    {
        SustainedDetector {
            threshold: config.threshold,
            sustained_secs: config.sustained_secs,
            above_since: None,
        }
    }

    /// One tick: `rate` is the current rate, `now` the monotonic clock in
    /// nanoseconds. Returns whether sustained load is reported.
    pub fn observe(&mut self, rate: usize, now: u128) -> (fired: bool)
        ensures
            final(self).threshold == old(self).threshold,
            final(self).sustained_secs == old(self).sustained_secs,
            fired == tick_fires(
                old(self).threshold,
                old(self).sustained_secs,
                old(self).above_since,
                rate,
                now,
            ),
            final(self).above_since == tick_marker(
                old(self).threshold,
                old(self).sustained_secs,
                old(self).above_since,
                rate,
                now,
            ),
    {
        if rate >= self.threshold {
            let since = match self.above_since {
                Some(since) => since,
                None => now,
            };
            let elapsed: u128 = if now >= since {
                (now - since) / NANOS_PER_SEC
            } else {
                0
            };
            if elapsed >= self.sustained_secs as u128 {
                self.above_since = None;
                true
            } else {
                self.above_since = Some(since);
                false
            }
        } else {
            self.above_since = None;
            false
        }
    }

    /// One round of the monitor's loop: reads the rate of `monitor` at wall
    /// clock second `wall_secs` and shows it to the detector together with
    /// the monotonic reading `now`.
    pub fn tick(&mut self, monitor: &RateMonitor, wall_secs: u64, now: u128) -> (tick: Tick)
        requires
            monitor.wf(),
        ensures
            final(self).threshold == old(self).threshold,
            final(self).sustained_secs == old(self).sustained_secs,
            tick.rate == crate::rate_monitor::reported(
                crate::rate_monitor::window_total(
                    monitor@,
                    wall_secs,
                    monitor.settings().window_secs,
                ),
            ),
            tick.fired == tick_fires(
                old(self).threshold,
                old(self).sustained_secs,
                old(self).above_since,
                tick.rate,
                now,
            ),
            final(self).above_since == tick_marker(
                old(self).threshold,
                old(self).sustained_secs,
                old(self).above_since,
                tick.rate,
                now,
            ),
    {
        let rate = monitor.current_rate(wall_secs);
        let fired = self.observe(rate, now);
        Tick { rate, fired }
    }
}

/// While an excursion is younger than `sustained_secs`, nothing is reported
/// and the marker stays at its first tick.
proof fn lemma_early_run(threshold: usize, sustained_secs: u64, run: Seq<Sample>)
    requires
        run.len() > 0,
        all_loaded(threshold, run),
        all_early(sustained_secs, run),
    ensures
        firings(threshold, sustained_secs, None, run) == 0,
        marker_after(threshold, sustained_secs, None, run) == Some(run[0].at),
    decreases run.len(),
{
    let head = run.drop_last();
    if head.len() > 0 {
        assert forall|i: int| 0 <= i < head.len() implies (#[trigger] head[i]).rate
            >= threshold by {
            assert(head[i] == run[i]);
        }
        assert forall|i: int| 0 <= i < head.len() implies whole_secs_between(
            head[0].at,
            (#[trigger] head[i]).at,
        ) < sustained_secs by {
            assert(head[i] == run[i]);
            assert(head[0] == run[0]);
        }
        lemma_early_run(threshold, sustained_secs, head);
        assert(head[0] == run[0]);
    } else {
        assert(run.last() == run[0]);
        assert(marker_after(threshold, sustained_secs, None, head) is None);
        assert(firings(threshold, sustained_secs, None, head) == 0);
    }
    assert(run.last() == run[run.len() - 1]);
}

/// A rate below the threshold ends the excursion: nothing is reported and
/// the next excursion starts from scratch.
pub proof fn law_drop_resets(
    threshold: usize,
    sustained_secs: u64,
    marker: Option<u128>,
    rate: usize,
    now: u128,
)
    requires
        rate < threshold,
    ensures
        !tick_fires(threshold, sustained_secs, marker, rate, now),
        tick_marker(threshold, sustained_secs, marker, rate, now) is None,
{
}

/// Load that ends too soon is never reported: ticks at or above the
/// threshold that all come less than `sustained_secs` whole seconds after the
/// first, followed by a tick below the threshold, report nothing and leave no
/// excursion under way.
pub proof fn law_short_excursion_is_silent(
    threshold: usize,
    sustained_secs: u64,
    run: Seq<Sample>,
    drop: Sample,
)
    requires
        all_loaded(threshold, run),
        all_early(sustained_secs, run),
        drop.rate < threshold,
    ensures
        firings(threshold, sustained_secs, None, run.push(drop)) == 0,
        marker_after(threshold, sustained_secs, None, run.push(drop)) is None,
{
    assert(run.push(drop).drop_last() == run);
    assert(run.push(drop).last() == drop);
    if run.len() > 0 {
        lemma_early_run(threshold, sustained_secs, run);
    }
}

/// Load that lasts is reported exactly once, when it has lasted long enough:
/// of ticks at or above the threshold, the first that comes `sustained_secs`
/// whole seconds or more after the first tick reports, no tick before it
/// does, and the excursion ends there.
pub proof fn law_sustained_excursion_fires_once(
    threshold: usize,
    sustained_secs: u64,
    run: Seq<Sample>,
)
    requires
        run.len() > 0,
        all_loaded(threshold, run),
        all_early(sustained_secs, run.drop_last()),
        whole_secs_between(run[0].at, run.last().at) >= sustained_secs,
    ensures
        firings(threshold, sustained_secs, None, run.drop_last()) == 0,
        firings(threshold, sustained_secs, None, run) == 1,
        marker_after(threshold, sustained_secs, None, run) is None,
{
    let head = run.drop_last();
    assert(run.last() == run[run.len() - 1]);
    if head.len() > 0 {
        assert forall|i: int| 0 <= i < head.len() implies (#[trigger] head[i]).rate
            >= threshold by {
            assert(head[i] == run[i]);
        }
        lemma_early_run(threshold, sustained_secs, head);
        assert(head[0] == run[0]);
    } else {
        assert(run.last() == run[0]);
        assert(marker_after(threshold, sustained_secs, None, head) is None);
        assert(firings(threshold, sustained_secs, None, head) == 0);
    }
}

/// Ticks shown one after the other count as ticks shown in one go.
pub proof fn lemma_ticks_in_turn(
    threshold: usize,
    sustained_secs: u64,
    marker: Option<u128>,
    first: Seq<Sample>,
    then: Seq<Sample>,
)
    ensures
        marker_after(threshold, sustained_secs, marker, first + then) == marker_after(
            threshold,
            sustained_secs,
            marker_after(threshold, sustained_secs, marker, first),
            then,
        ),
        firings(threshold, sustained_secs, marker, first + then) == firings(
            threshold,
            sustained_secs,
            marker,
            first,
        ) + firings(
            threshold,
            sustained_secs,
            marker_after(threshold, sustained_secs, marker, first),
            then,
        ),
    decreases then.len(),
{
    if then.len() == 0 {
        assert(first + then == first);
    } else {
        lemma_ticks_in_turn(threshold, sustained_secs, marker, first, then.drop_last());
        assert((first + then).drop_last() == first + then.drop_last());
        assert((first + then).last() == then.last());
    }
}

/// One report per excursion: load that is reported, and then goes on for
/// less than another `sustained_secs` whole seconds, is not reported again.
pub proof fn law_one_report_per_excursion(
    threshold: usize,
    sustained_secs: u64,
    run: Seq<Sample>,
    rest: Seq<Sample>,
)
    requires
        run.len() > 0,
        all_loaded(threshold, run),
        all_early(sustained_secs, run.drop_last()),
        whole_secs_between(run[0].at, run.last().at) >= sustained_secs,
        all_loaded(threshold, rest),
        all_early(sustained_secs, rest),
    ensures
        firings(threshold, sustained_secs, None, run + rest) == 1,
{
    law_sustained_excursion_fires_once(threshold, sustained_secs, run);
    lemma_ticks_in_turn(threshold, sustained_secs, None, run, rest);
    if rest.len() > 0 {
        lemma_early_run(threshold, sustained_secs, rest);
    }
}

} // verus!
