use latency_timer::clock::get_time2;
use latency_timer::timer::{
    default_targets, snapshot_from_counts, DefaultPrinter, LatencyTimer,
};

fn fresh() -> LatencyTimer<DefaultPrinter> {
    LatencyTimer::new_with_printer(DefaultPrinter {})
}

#[test]
fn default_targets_are_the_seven_percentiles() {
    assert_eq!(default_targets(), vec![10, 500, 750, 900, 950, 990, 999]);
}

#[test]
fn empty_snapshot_reports_zero() {
    let mut t = fresh();
    let ret = t.snap_at(1_000_000, 42);
    assert_eq!(ret.total, 0);
    assert_eq!(ret.max_nanos, 0);
    assert_eq!(ret.snap_time_millis, 42);
    // the first period starts at the instrument's construction, time zero
    assert_eq!(ret.duration_nanos, 1_000_000);
    assert_eq!(ret.nanos.len(), ret.p_tiles.len());
    // with no data every percentile falls out of the first slot
    for &v in ret.nanos.iter() {
        assert_eq!(v, 1);
    }
}

#[test]
fn snapshot_resets_the_state() {
    let mut t = fresh();
    t.count2(100);
    t.count2(2_000_000);
    let first = t.snap_at(10_000, 0);
    assert_eq!(first.total, 2);
    assert_eq!(first.max_nanos, 2_000_000);
    let second = t.snap_at(25_000, 0);
    assert_eq!(second.total, 0);
    assert_eq!(second.max_nanos, 0);
    assert_eq!(second.duration_nanos, 15_000);
}

#[test]
fn max_is_the_largest_value_in_any_order() {
    let mut a = fresh();
    for v in [5u64, 900, 17, 1_000_000, 3] {
        a.count2(v);
    }
    let mut b = fresh();
    for v in [1_000_000u64, 3, 900, 5, 17] {
        b.count2(v);
    }
    let ra = a.snap_at(1, 0);
    let rb = b.snap_at(1, 0);
    assert_eq!(ra.max_nanos, 1_000_000);
    assert_eq!(rb.max_nanos, 1_000_000);
    assert_eq!(ra.total, 5);
    assert_eq!(rb.total, 5);
}

#[test]
fn scenario_three_fast_one_slow() {
    let mut t = fresh();
    // pin the period's start so the next snapshot's duration is exact
    t.snap_at(1_000_000, 0);
    t.count2(100);
    t.count2(100);
    t.count2(100);
    t.count2(2_000_000);
    let ret = t.snap_at(2_001_000_000, 7);
    assert_eq!(ret.total, 4);
    assert_eq!(ret.max_nanos, 2_000_000);
    assert_eq!(ret.p_tiles, vec![10, 500, 750, 900, 950, 990, 999]);
    // p75 aims at rank 3, reached inside the tier-0 slot for 100ns
    assert_eq!(ret.nanos[2], 101);
    // p99 floors its rank to 3 as well, so it reads the same slot
    assert_eq!(ret.nanos[5], 101);
    assert_eq!(ret.duration_nanos, 2_000_000_000);
}

#[test]
fn first_mark_only_establishes_the_baseline() {
    let mut t = fresh();
    t.count1_at(5_000);
    let ret = t.snap_at(1, 0);
    assert_eq!(ret.total, 0);
    assert_eq!(ret.max_nanos, 0);
}

#[test]
fn second_mark_records_the_interval() {
    let mut t = fresh();
    t.count1_at(5_000);
    t.count1_at(7_500);
    let ret = t.snap_at(1, 0);
    assert_eq!(ret.total, 1);
    assert_eq!(ret.max_nanos, 2_500);
}

#[test]
fn backwards_clock_is_clamped_to_zero() {
    let mut t = fresh();
    t.count1_at(9_000);
    t.count1_at(4_000);
    let ret = t.snap_at(1, 0);
    assert_eq!(ret.total, 1);
    assert_eq!(ret.max_nanos, 0);
}

#[test]
fn marks_on_the_real_clock_count_intervals() {
    let mut t = fresh();
    t.count1();
    t.count1();
    t.count1();
    let ret = t.snap_at(1, 0);
    assert_eq!(ret.total, 2);
}

#[test]
fn get_time2_reads_a_running_clock() {
    assert!(get_time2() > 0);
}

#[test]
fn default_timer_starts_empty() {
    let mut t: LatencyTimer<DefaultPrinter> = Default::default();
    let ret = t.snap_at(1, 0);
    assert_eq!(ret.total, 0);
    assert_eq!(ret.p_tiles, vec![10, 500, 750, 900, 950, 990, 999]);
}

#[test]
fn die_stops_the_reporter_loop() {
    let mut t = fresh();
    assert!(!t.run_step());
    t.die();
    assert!(t.run_step());
}

#[test]
fn snapshot_from_counts_reports_the_given_state() {
    let mut bins = vec![0u64; 4000];
    bins[100] = 3;
    bins[2002] = 1;
    let targets = vec![750u64, 1000];
    let ret = snapshot_from_counts(&bins, 2_000_000, &targets, 500, 99);
    assert_eq!(ret.total, 4);
    assert_eq!(ret.max_nanos, 2_000_000);
    assert_eq!(ret.p_tiles, targets);
    assert_eq!(ret.nanos, vec![101, 3_000_000]);
    assert_eq!(ret.duration_nanos, 500);
    assert_eq!(ret.snap_time_millis, 99);
}

#[test]
fn snap_on_the_real_clock_reports_and_resets() {
    let mut t = fresh();
    t.count2(250);
    let ret = t.snap();
    assert_eq!(ret.total, 1);
    assert_eq!(ret.max_nanos, 250);
    let again = t.snap();
    assert_eq!(again.total, 0);
    assert_eq!(again.max_nanos, 0);
}
