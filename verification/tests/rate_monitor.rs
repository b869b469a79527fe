use vllm_router_rs::config::RateMonitorConfig;
use vllm_router_rs::overload::SustainedDetector;
use vllm_router_rs::overload::NANOS_PER_SEC;
use vllm_router_rs::rate_monitor::RateMonitor;

fn config(window_secs: u64) -> RateMonitorConfig {
    RateMonitorConfig {
        window_secs,
        threshold: 10,
        sustained_secs: 3,
    }
}

fn monitor(window_secs: u64) -> RateMonitor {
    let config = config(window_secs);
    assert!(config.is_valid());
    RateMonitor::new(config)
}

fn detector(threshold: usize, sustained_secs: u64) -> SustainedDetector {
    SustainedDetector::new(&RateMonitorConfig {
        window_secs: 5,
        threshold,
        sustained_secs,
    })
}

#[test]
fn a_window_needs_a_slot() {
    assert!(!config(0).is_valid());
    assert!(config(1).is_valid());
    assert!(config(3600).is_valid());
    assert_eq!(config(u64::MAX).is_valid(), usize::MAX as u64 == u64::MAX);
}

#[test]
fn a_new_monitor_counts_nothing() {
    let monitor = monitor(5);
    assert_eq!(monitor.current_rate(0), 0);
    assert_eq!(monitor.current_rate(1), 0);
    assert_eq!(monitor.current_rate(1_700_000_000), 0);
    assert_eq!(monitor.current_rate(u64::MAX), 0);
    let kept = monitor.config();
    assert_eq!(kept.window_secs, 5);
    assert_eq!(kept.threshold, 10);
    assert_eq!(kept.sustained_secs, 3);
}

#[test]
fn requests_within_one_second_are_all_counted() {
    let mut monitor = monitor(5);
    for k in 1..=100usize {
        assert_eq!(monitor.record_at(1_000), k);
    }
    assert_eq!(monitor.current_rate(1_000), 100);
}

#[test]
fn the_rate_is_the_sum_over_the_trailing_window() {
    let mut monitor = monitor(3);
    assert_eq!(monitor.record_at(10), 1);
    assert_eq!(monitor.record_at(10), 2);
    assert_eq!(monitor.record_at(11), 3);
    assert_eq!(monitor.record_at(12), 4);
    assert_eq!(monitor.record_at(12), 5);
    assert_eq!(monitor.record_at(12), 6);
    assert_eq!(monitor.current_rate(12), 6);
    // second 10 is 3 seconds back at 13: out of a window of 3
    assert_eq!(monitor.current_rate(13), 4);
    assert_eq!(monitor.current_rate(14), 3);
    assert_eq!(monitor.current_rate(15), 0);
    // nothing was reset by reading
    assert_eq!(monitor.current_rate(12), 6);
}

#[test]
fn the_window_drains_after_its_length_without_requests() {
    let mut monitor = monitor(4);
    for second in 100..104 {
        monitor.record_at(second);
        monitor.record_at(second);
    }
    assert_eq!(monitor.current_rate(103), 8);
    assert_eq!(monitor.current_rate(106), 2);
    // 4 seconds after the last request nothing is left
    assert_eq!(monitor.current_rate(107), 0);
    assert_eq!(monitor.current_rate(108), 0);
    assert_eq!(monitor.current_rate(1_000_000), 0);
}

#[test]
fn a_slot_is_reset_when_its_second_comes_round_again() {
    let mut monitor = monitor(3);
    assert_eq!(monitor.record_at(10), 1);
    assert_eq!(monitor.record_at(10), 2);
    assert_eq!(monitor.record_at(11), 3);
    // second 13 falls on the slot of second 10
    assert_eq!(monitor.record_at(13), 2);
    assert_eq!(monitor.record_at(13), 3);
    assert_eq!(monitor.current_rate(13), 3);
    // many turns later the slot starts from scratch too
    assert_eq!(monitor.record_at(10 + 3 * 1_000), 1);
}

#[test]
fn a_stale_slot_counts_as_empty_though_its_counter_is_not() {
    let mut monitor = monitor(2);
    for _ in 0..7 {
        monitor.record_at(20);
    }
    assert_eq!(monitor.current_rate(21), 7);
    assert_eq!(monitor.current_rate(22), 0);
    // a request in another slot does not revive it
    assert_eq!(monitor.record_at(23), 1);
}

#[test]
fn a_window_of_one_second_holds_the_current_second_only() {
    let mut monitor = monitor(1);
    assert_eq!(monitor.record_at(5), 1);
    assert_eq!(monitor.record_at(5), 2);
    assert_eq!(monitor.current_rate(6), 0);
    assert_eq!(monitor.record_at(6), 1);
}

#[test]
fn second_zero_is_counted_like_any_other() {
    let mut monitor = monitor(5);
    assert_eq!(monitor.record_at(0), 1);
    assert_eq!(monitor.record_at(0), 2);
    assert_eq!(monitor.current_rate(0), 2);
    assert_eq!(monitor.current_rate(1), 2);
    // a later second on the same slot starts from scratch
    assert_eq!(monitor.record_at(5), 1);
}

#[test]
fn second_zero_leaves_the_window_like_any_other() {
    let mut monitor = monitor(3);
    assert_eq!(monitor.record_at(0), 1);
    assert_eq!(monitor.record_at(1), 2);
    assert_eq!(monitor.current_rate(2), 2);
    assert_eq!(monitor.current_rate(3), 1);
    assert_eq!(monitor.current_rate(4), 0);
    // a window of one second at the epoch
    let mut single = self::monitor(1);
    assert_eq!(single.record_at(0), 1);
    assert_eq!(single.record_at(0), 2);
    assert_eq!(single.current_rate(1), 0);
}

#[test]
fn the_nth_request_returns_n_while_all_lie_in_the_window() {
    let mut monitor = monitor(4);
    assert_eq!(monitor.record_at(10), 1);
    assert_eq!(monitor.record_at(11), 2);
    assert_eq!(monitor.record_at(13), 3);
    // the first request is 4 seconds back: out of the window
    assert_eq!(monitor.record_at(14), 3);
    assert_eq!(monitor.record_at(14), 4);
    // all earlier requests are out of the window
    assert_eq!(monitor.record_at(100), 1);
}

#[test]
fn a_stamp_ahead_of_the_clock_counts() {
    let mut monitor = monitor(3);
    monitor.record_at(50);
    monitor.record_at(50);
    // the clock went back
    assert_eq!(monitor.current_rate(40), 2);
    assert_eq!(monitor.record_at(49), 3);
}

#[test]
fn the_largest_second_is_handled() {
    let mut monitor = monitor(7);
    assert_eq!(monitor.record_at(u64::MAX), 1);
    assert_eq!(monitor.record_at(u64::MAX - 6), 2);
    assert_eq!(monitor.current_rate(u64::MAX), 2);
    assert_eq!(monitor.record_at(u64::MAX - 7), 2);
}

#[test]
fn record_counts_at_the_wall_clock() {
    let now = RateMonitor::now_secs();
    assert!(now > 1_600_000_000);
    assert_eq!(RateMonitor::checked_now_secs().map(|secs| secs >= now), Some(true));
    let mut monitor = monitor(60);
    for k in 1..=25usize {
        assert_eq!(monitor.record(), k);
    }
    let later = RateMonitor::now_secs();
    assert!(later >= now);
    assert!(later - now < 60);
    assert_eq!(monitor.current_rate(later), 25);
    assert_eq!(monitor.current_rate(later + 60), 0);
}

#[test]
fn detector_starts_idle() {
    let detector = detector(10, 3);
    assert_eq!(detector.threshold, 10);
    assert_eq!(detector.sustained_secs, 3);
    assert_eq!(detector.above_since, None);
}

#[test]
fn load_that_ends_too_soon_is_not_reported() {
    // at or above the threshold for sustained_secs - 1 seconds, then below
    let mut detector = detector(10, 3);
    let start = 500 * NANOS_PER_SEC;
    assert!(!detector.observe(10, start));
    assert_eq!(detector.above_since, Some(start));
    assert!(!detector.observe(11, start + NANOS_PER_SEC));
    assert!(!detector.observe(99, start + 2 * NANOS_PER_SEC));
    assert_eq!(detector.above_since, Some(start));
    assert!(!detector.observe(9, start + 3 * NANOS_PER_SEC));
    assert_eq!(detector.above_since, None);
    // the next excursion starts from scratch
    assert!(!detector.observe(10, start + 4 * NANOS_PER_SEC));
    assert_eq!(detector.above_since, Some(start + 4 * NANOS_PER_SEC));
    assert!(!detector.observe(10, start + 6 * NANOS_PER_SEC));
    assert!(detector.observe(10, start + 7 * NANOS_PER_SEC));
}

#[test]
fn load_that_lasts_is_reported_once() {
    let mut detector = detector(10, 3);
    let mut fired = Vec::new();
    for tick in 0..4u128 {
        fired.push(detector.observe(10, tick * NANOS_PER_SEC));
    }
    assert_eq!(fired, vec![false, false, false, true]);
    assert_eq!(detector.above_since, None);
    // a drop after the report reports nothing more
    assert!(!detector.observe(0, 4 * NANOS_PER_SEC));
    assert_eq!(detector.above_since, None);
}

#[test]
fn load_that_goes_on_is_reported_again_after_another_full_period() {
    let mut detector = detector(10, 3);
    let fired: Vec<bool> = (0..12u128)
        .map(|tick| detector.observe(10, tick * NANOS_PER_SEC))
        .collect();
    assert_eq!(
        fired,
        vec![false, false, false, true, false, false, false, true, false, false, false, true]
    );
}

#[test]
fn only_whole_seconds_count() {
    let mut detector = detector(1, 2);
    assert!(!detector.observe(1, 1_000));
    assert!(!detector.observe(1, 1_000 + 2 * NANOS_PER_SEC - 1));
    assert!(detector.observe(1, 1_000 + 2 * NANOS_PER_SEC));
    let mut detector = self::detector(1, 2);
    assert!(!detector.observe(1, 1_000));
    assert!(detector.observe(1, 1_000 + 5 * NANOS_PER_SEC / 2));
}

#[test]
fn without_a_period_every_loaded_tick_is_reported() {
    let mut detector = detector(5, 0);
    assert!(detector.observe(5, 0));
    assert_eq!(detector.above_since, None);
    assert!(detector.observe(6, 1));
    assert!(!detector.observe(4, 2));
    assert!(detector.observe(5, 3));
}

#[test]
fn a_threshold_of_zero_is_always_met() {
    let mut detector = detector(0, 1);
    assert!(!detector.observe(0, 0));
    assert!(detector.observe(0, NANOS_PER_SEC));
}

#[test]
fn a_clock_that_goes_back_counts_no_time() {
    let mut detector = detector(10, 1);
    assert!(!detector.observe(10, 10 * NANOS_PER_SEC));
    assert!(!detector.observe(10, 2 * NANOS_PER_SEC));
    assert_eq!(detector.above_since, Some(10 * NANOS_PER_SEC));
    assert!(detector.observe(10, 11 * NANOS_PER_SEC));
}

#[test]
fn the_largest_readings_are_handled() {
    let mut detector = detector(usize::MAX, u64::MAX);
    assert!(!detector.observe(usize::MAX, 0));
    assert!(!detector.observe(usize::MAX, u64::MAX as u128 * NANOS_PER_SEC - 1));
    assert_eq!(detector.above_since, Some(0));
    assert!(!detector.observe(usize::MAX - 1, u128::MAX));
    assert_eq!(detector.above_since, None);
    let mut detector = self::detector(1, u64::MAX);
    assert!(!detector.observe(1, 0));
    assert!(detector.observe(1, u64::MAX as u128 * NANOS_PER_SEC));
    // the largest reading lies more than the longest period after the first
    assert!(!detector.observe(1, 0));
    assert!(detector.observe(1, u128::MAX));
}

#[test]
fn tick_reads_the_monitor_and_asks_the_detector() {
    let mut monitor = monitor(5);
    let mut detector = detector(3, 2);
    for _ in 0..2 {
        monitor.record_at(100);
    }
    let tick = detector.tick(&monitor, 100, 0);
    assert_eq!(tick.rate, 2);
    assert!(!tick.fired);
    assert_eq!(detector.above_since, None);
    monitor.record_at(101);
    let tick = detector.tick(&monitor, 101, NANOS_PER_SEC);
    assert_eq!(tick.rate, 3);
    assert!(!tick.fired);
    assert_eq!(detector.above_since, Some(NANOS_PER_SEC));
    let tick = detector.tick(&monitor, 102, 2 * NANOS_PER_SEC);
    assert_eq!(tick.rate, 3);
    assert!(!tick.fired);
    monitor.record_at(103);
    let tick = detector.tick(&monitor, 103, 3 * NANOS_PER_SEC);
    assert_eq!(tick.rate, 4);
    assert!(tick.fired);
    assert_eq!(detector.above_since, None);
    // the window has drained: the rate is below the threshold again
    let tick = detector.tick(&monitor, 110, 10 * NANOS_PER_SEC);
    assert_eq!(tick.rate, 0);
    assert!(!tick.fired);
}
