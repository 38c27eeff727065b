use latency_timer::render::time_format;
use latency_timer::timer::{throughput_centi, LatRet};

#[test]
fn time_format_scales_through_the_units() {
    assert_eq!(time_format(0), "0.00ns ");
    assert_eq!(time_format(500), "500.00ns ");
    assert_eq!(time_format(999), "999.00ns ");
    assert_eq!(time_format(1000), "1.00us ");
    assert_eq!(time_format(1500), "1.50us ");
    assert_eq!(time_format(2_500_000), "2.50ms ");
    assert_eq!(time_format(3_000_000_000), "3.00s ");
}

#[test]
fn time_format_rounds_its_decimals_to_nearest() {
    assert_eq!(time_format(1994), "1.99us ");
    assert_eq!(time_format(1996), "2.00us ");
    assert_eq!(time_format(999_999), "1000.00us ");
}

#[test]
fn throughput_is_total_per_second_in_hundredths() {
    // 4 events over 2 seconds: 2.00 events per second
    assert_eq!(throughput_centi(4, 2_000_000_000), 200);
    // 1 event over 1 nanosecond: a billion events per second
    assert_eq!(throughput_centi(1, 1), 100_000_000_000);
    assert_eq!(throughput_centi(3, 4_000_000_000), 75);
    // 2 events over 3 seconds round up to 0.67 events per second
    assert_eq!(throughput_centi(2, 3_000_000_000), 67);
}

#[test]
fn throughput_of_an_empty_period_is_zero() {
    assert_eq!(throughput_centi(0, 2_000_000_000), 0);
    assert_eq!(throughput_centi(5, 0), 0);
    assert_eq!(throughput_centi(0, 0), 0);
}

#[test]
fn render_lists_percentiles_from_highest_target_down() {
    let ret = LatRet {
        nanos: vec![101, 3_000_000],
        p_tiles: vec![500, 999],
        total: 4,
        max_nanos: 2_000_000,
        snap_time_millis: 0,
        duration_nanos: 2_000_000_000,
    };
    assert_eq!(
        ret.render(),
        "max:2.00ms 99.9%:3.00ms 50%:101.00ns total:4 duration_nanos:2000000000 ops/sec:2.00"
    );
}

#[test]
fn render_whole_percent_targets_drop_the_decimal() {
    let ret = LatRet {
        nanos: vec![2],
        p_tiles: vec![10],
        total: 1,
        max_nanos: 1,
        snap_time_millis: 0,
        duration_nanos: 0,
    };
    assert_eq!(
        ret.render(),
        "max:1.00ns 1%:2.00ns total:1 duration_nanos:0 ops/sec:0.00"
    );
}

#[test]
fn render_without_data_points() {
    let ret = LatRet {
        nanos: vec![],
        p_tiles: vec![],
        total: 0,
        max_nanos: 0,
        snap_time_millis: 0,
        duration_nanos: 5,
    };
    assert_eq!(ret.render(), "No data points");
}
