use latency_timer::bucket::{bucket_index, decode_bucket};
use latency_timer::percentile::{percentile_value, reconstruct_all, sum_bins};

#[test]
fn bucket_index_tier0_is_identity() {
    assert_eq!(bucket_index(0), 0);
    assert_eq!(bucket_index(1), 1);
    assert_eq!(bucket_index(500), 500);
    assert_eq!(bucket_index(999), 999);
}

#[test]
fn bucket_index_tier_promotion() {
    assert_eq!(bucket_index(1000), 1001);
    assert_eq!(bucket_index(1500), 1001);
    assert_eq!(bucket_index(999_999), 1999);
    assert_eq!(bucket_index(1_000_000), 2001);
    assert_eq!(bucket_index(2_000_000), 2002);
    assert_eq!(bucket_index(1_000_000_000), 3001);
}

#[test]
fn bucket_index_clamps_to_last_slot() {
    assert_eq!(bucket_index(u64::MAX), 3999);
    assert_eq!(bucket_index(4_000_000_000_000), 3999);
}

#[test]
fn decode_reports_upper_edge() {
    assert_eq!(decode_bucket(0), 1);
    assert_eq!(decode_bucket(500), 501);
    assert_eq!(decode_bucket(999), 1000);
    assert_eq!(decode_bucket(1001), 2000);
    assert_eq!(decode_bucket(1999), 1_000_000);
    assert_eq!(decode_bucket(2002), 3_000_000);
    assert_eq!(decode_bucket(3999), 1_000_000_000_000);
}

#[test]
fn round_trip_stays_within_tier_resolution() {
    for &v in &[0u64, 1, 500, 999, 1000, 1500, 999_999, 1_000_000, 2_000_000, 999_999_999] {
        let rebuilt = decode_bucket(bucket_index(v));
        let resolution = if v < 1000 {
            1
        } else if v < 1_000_000 {
            1000
        } else {
            1_000_000
        };
        assert!(rebuilt > v, "value {} rebuilt {}", v, rebuilt);
        assert!(rebuilt <= v + resolution, "value {} rebuilt {}", v, rebuilt);
    }
}

#[test]
fn sum_bins_counts_every_slot() {
    let mut bins = vec![0u64; 4000];
    bins[0] = 3;
    bins[100] = 2;
    bins[3999] = 5;
    assert_eq!(sum_bins(&bins), 10);
}

#[test]
fn percentile_value_scans_to_rank() {
    let mut bins = vec![0u64; 4000];
    bins[100] = 3;
    bins[2002] = 1;
    // rank 0 stops at the first slot
    assert_eq!(percentile_value(&bins, 10), 1);
    // rank 3 is reached inside the tier-0 slot
    assert_eq!(percentile_value(&bins, 750), 101);
    // 99% of 4 floors to rank 3, still the tier-0 slot
    assert_eq!(percentile_value(&bins, 990), 101);
    // the full population reaches the millisecond-tier slot
    assert_eq!(percentile_value(&bins, 1000), 3_000_000);
}

#[test]
fn percentile_values_follow_target_order() {
    let mut bins = vec![0u64; 4000];
    bins[50] = 10;
    bins[700] = 10;
    bins[1500] = 10;
    bins[2500] = 10;
    let targets = vec![10u64, 250, 500, 750, 900, 990, 1000];
    let vals = reconstruct_all(&bins, &targets);
    assert_eq!(vals.len(), targets.len());
    for w in vals.windows(2) {
        assert!(w[0] <= w[1], "percentile values must be non-decreasing: {:?}", vals);
    }
}

#[test]
fn reconstruct_all_pairs_targets_in_order() {
    let mut bins = vec![0u64; 4000];
    bins[10] = 2;
    let targets = vec![500u64, 1000];
    let vals = reconstruct_all(&bins, &targets);
    assert_eq!(vals, vec![11, 11]);
}
