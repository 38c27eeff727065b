//! Percentile reconstruction over a vector of bucket counts.
//!
//! For each percentile target the rank `⌊total * target / 1000⌋` is computed
//! (targets are given in tenths of a percent), the buckets are scanned in
//! ascending index order until the running count reaches the rank, and the
//! stopping slot is decoded back to an approximate latency.

use crate::bucket::{
    decode_bucket, decode_spec, pow1000, BIN_COUNT,
};
use vstd::arithmetic::div_mod::{lemma_div_by_multiple, lemma_div_is_ordered};
use vstd::arithmetic::mul::lemma_mul_inequality;
use vstd::prelude::*;

verus! {

/// Sum of the first `n` counters.
pub open spec fn sum_prefix(s: Seq<u64>, n: int) -> int
    decreases n,
{
    if n <= 0 {
        0
    } else {
        sum_prefix(s, n - 1) + s[n - 1]
    }
}

/// Total number of events counted in the histogram.
pub open spec fn total_spec(s: Seq<u64>) -> int {
    sum_prefix(s, s.len() as int)
}

/// The rank an event count and a percentile target (in tenths of a percent)
/// aim at: `⌊total * target / 1000⌋`.
pub open spec fn rank_spec(total: int, p_mille: int) -> int {
    total * p_mille / 1000
}

/// The slot where an ascending scan stops: the first index whose running
/// count reaches the rank, starting the scan at index `i` with `cum` events
/// already accumulated.
pub open spec fn select_from(s: Seq<u64>, rank: int, i: int, cum: int) -> int
    decreases s.len() - i,
{
    if i < 0 || i >= s.len() {
        i
    } else if cum + s[i] < rank {
        select_from(s, rank, i + 1, cum + s[i])
    } else {
        i
    }
}

/// The slot a full ascending scan stops at.
pub open spec fn select_bucket_spec(s: Seq<u64>, rank: int) -> int {
    select_from(s, rank, 0, 0)
}

/// The reconstructed latency for one percentile target over one histogram.
pub open spec fn reconstruct_spec(s: Seq<u64>, p_mille: int) -> int {
    decode_spec(select_bucket_spec(s, rank_spec(total_spec(s), p_mille)) as nat) as int
}

/// A prefix sum is non-negative and at most `n` counters of the largest
/// possible value.
pub proof fn lemma_sum_prefix_bounds(s: Seq<u64>, n: int)
    requires
        0 <= n <= s.len(),
    ensures
        0 <= sum_prefix(s, n),
        sum_prefix(s, n) <= n * 0xffff_ffff_ffff_ffff,
    decreases n,
{
    if n > 0 {
        lemma_sum_prefix_bounds(s, n - 1);
        assert((n - 1) * 0xffff_ffff_ffff_ffff + 0xffff_ffff_ffff_ffff == n * 0xffff_ffff_ffff_ffff)
            by (nonlinear_arith);
    }
}

/// What the scan's stopping slot satisfies: every earlier prefix stays under
/// the rank, the stopping prefix reaches it unless the scan ran off the end,
/// and the scan runs off the end only when the whole histogram stays under
/// the rank.
pub proof fn lemma_select_from_props(s: Seq<u64>, rank: int, i: int, cum: int)
    requires
        0 <= i <= s.len(),
        cum == sum_prefix(s, i),
        forall|j: int| 0 <= j < i ==> #[trigger] sum_prefix(s, j + 1) < rank,
    ensures
        i <= select_from(s, rank, i, cum) <= s.len(),
        select_from(s, rank, i, cum) < s.len() ==> sum_prefix(
            s,
            select_from(s, rank, i, cum) + 1,
        ) >= rank,
        forall|j: int| 0 <= j < select_from(s, rank, i, cum) ==> #[trigger] sum_prefix(s, j + 1) < rank,
        select_from(s, rank, i, cum) == s.len() && s.len() > 0 ==> total_spec(s) < rank,
    decreases s.len() - i,
{
    if i < s.len() {
        if cum + s[i] < rank {
            assert(sum_prefix(s, i + 1) == cum + s[i]);
            lemma_select_from_props(s, rank, i + 1, cum + s[i]);
        } else {
            assert(sum_prefix(s, i + 1) == cum + s[i] >= rank);
        }
    } else {
        assert(cum == total_spec(s));
        if i > 0 {
            assert(sum_prefix(s, (i - 1) + 1) < rank);
        }
    }
}

/// Properties of the full scan, stated over the whole histogram.
pub proof fn lemma_select_bucket_props(s: Seq<u64>, rank: int)
    ensures
        0 <= select_bucket_spec(s, rank) <= s.len(),
        select_bucket_spec(s, rank) < s.len() ==> sum_prefix(
            s,
            select_bucket_spec(s, rank) + 1,
        ) >= rank,
        forall|j: int| 0 <= j < select_bucket_spec(s, rank) ==> #[trigger] sum_prefix(s, j + 1) < rank,
        rank <= total_spec(s) ==> select_bucket_spec(s, rank) < s.len() || s.len() == 0,
{
    lemma_select_from_props(s, rank, 0, 0);
    if s.len() > 0 && rank <= total_spec(s) && select_bucket_spec(s, rank) == s.len() {
        assert(total_spec(s) < rank);
        assert(false);
    }
}

/// A larger rank never stops the scan earlier.
pub proof fn lemma_select_monotonic(s: Seq<u64>, rank1: int, rank2: int)
    requires
        rank1 <= rank2,
    ensures
        select_bucket_spec(s, rank1) <= select_bucket_spec(s, rank2),
{
    lemma_select_bucket_props(s, rank1);
    lemma_select_bucket_props(s, rank2);
    let r1 = select_bucket_spec(s, rank1);
    let r2 = select_bucket_spec(s, rank2);
    if r2 < r1 {
        assert(sum_prefix(s, r2 + 1) >= rank2);
        assert(sum_prefix(s, r2 + 1) < rank1);
        assert(false);
    }
}

/// Decoding never shrinks as the slot index grows.
pub proof fn lemma_decode_monotonic(i1: nat, i2: nat)
    requires
        i1 <= i2,
        i2 < BIN_COUNT,
    ensures
        decode_spec(i1) <= decode_spec(i2),
{
    crate::bucket::lemma_pow1000_values();
    let t1 = i1 / 1000;
    let t2 = i2 / 1000;
    lemma_div_is_ordered(i1 as int, i2 as int, 1000);
    assert(t1 <= t2);
    assert(t2 <= 3);
    if t1 == t2 {
        assert(i1 % 1000 <= i2 % 1000);
        assert(decode_spec(i1) == (i1 % 1000 + 1) * pow1000(t1));
        lemma_mul_inequality((i1 % 1000 + 1) as int, (i2 % 1000 + 1) as int, pow1000(t1) as int);
    } else {
        assert(i1 % 1000 + 1 <= 1000);
        lemma_mul_inequality((i1 % 1000 + 1) as int, 1000, pow1000(t1) as int);
        assert(decode_spec(i1) <= 1000 * pow1000(t1));
        assert(1000 * pow1000(t1) == pow1000((t1 + 1) as nat));
        assert(pow1000((t1 + 1) as nat) <= pow1000(t2)) by {
            assert(t1 + 1 <= t2);
            assert(t1 <= 2);
        }
        assert(pow1000(t2) <= (i2 % 1000 + 1) * pow1000(t2)) by (nonlinear_arith)
            requires
                pow1000(t2) >= 0,
        ;
    }
}

/// Percentile ordering: over a non-empty histogram, the reconstructed value
/// for a larger percentile target is never below the one for a smaller
/// target.
pub proof fn lemma_percentile_ordering(s: Seq<u64>, pm1: int, pm2: int)
    requires
        s.len() == BIN_COUNT,
        0 <= pm1 <= pm2 <= 1000,
        total_spec(s) >= 1,
    ensures
        reconstruct_spec(s, pm1) <= reconstruct_spec(s, pm2),
{
    let total = total_spec(s);
    let rank1 = rank_spec(total, pm1);
    let rank2 = rank_spec(total, pm2);
    lemma_mul_inequality(pm1, pm2, total);
    assert(total * pm1 <= total * pm2) by (nonlinear_arith)
        requires
            pm1 <= pm2,
            total >= 0,
    ;
    lemma_div_is_ordered(total * pm1, total * pm2, 1000);
    assert(rank1 <= rank2);
    lemma_rank_le_total(total, pm2);
    lemma_select_monotonic(s, rank1, rank2);
    lemma_select_bucket_props(s, rank1);
    lemma_select_bucket_props(s, rank2);
    let i1 = select_bucket_spec(s, rank1);
    let i2 = select_bucket_spec(s, rank2);
    assert(i2 < BIN_COUNT);
    lemma_decode_monotonic(i1 as nat, i2 as nat);
}

/// A rank aimed at by a target of at most one hundred percent never exceeds
/// the total.
pub proof fn lemma_rank_le_total(total: int, p_mille: int)
    requires
        0 <= total,
        0 <= p_mille <= 1000,
    ensures
        0 <= rank_spec(total, p_mille) <= total,
{
    assert(0 <= total * p_mille) by (nonlinear_arith)
        requires
            0 <= total,
            0 <= p_mille,
    ;
    assert(total * p_mille <= total * 1000) by (nonlinear_arith)
        requires
            0 <= total,
            p_mille <= 1000,
    ;
    lemma_div_is_ordered(0, total * p_mille, 1000);
    lemma_div_is_ordered(total * p_mille, total * 1000, 1000);
    lemma_div_by_multiple(total, 1000);
}

/// Sums the bucket counters; the result is exact, a 128-bit accumulator has
/// room for every possible histogram.
pub fn sum_bins(bins: &Vec<u64>) -> (t: u128)
    requires
        bins@.len() == BIN_COUNT,
    ensures
        t == total_spec(bins@),
{
    let mut acc: u128 = 0;
    let mut i: usize = 0;
    while i < bins.len()
        invariant
            bins@.len() == BIN_COUNT,
            0 <= i <= BIN_COUNT,
            acc == sum_prefix(bins@, i as int),
        decreases bins@.len() - i,
    {
        proof {
            lemma_sum_prefix_bounds(bins@, i as int);
            assert((i as int) * 0xffff_ffff_ffff_ffff <= 4000 * 0xffff_ffff_ffff_ffff)
                by (nonlinear_arith)
                requires
                    i <= 4000,
            ;
        }
        acc = acc + (bins[i] as u128);
        i = i + 1;
    }
    acc
}

/// Reconstructs the latency estimate for one percentile target, given in
/// tenths of a percent, over the bucket counters.
pub fn percentile_value(bins: &Vec<u64>, p_mille: u64) -> (v: u64)
    requires
        bins@.len() == BIN_COUNT,
        p_mille <= 1000,
    ensures
        v == reconstruct_spec(bins@, p_mille as int),
{
    let total: u128 = sum_bins(bins);
    proof {
        lemma_sum_prefix_bounds(bins@, BIN_COUNT as int);
        assert(total_spec(bins@) <= 4000 * 0xffff_ffff_ffff_ffff) by (nonlinear_arith)
            requires
                total_spec(bins@) <= 4000 * 0xffff_ffff_ffff_ffff,
        ;
        assert((total as int) * (p_mille as int) <= (4000 * 0xffff_ffff_ffff_ffff) * 1000)
            by (nonlinear_arith)
            requires
                total <= 4000 * 0xffff_ffff_ffff_ffff,
                p_mille <= 1000,
        ;
    }
    let rank: u128 = total * (p_mille as u128) / 1000;
    proof {
        assert(rank == rank_spec(total_spec(bins@), p_mille as int));
        lemma_rank_le_total(total_spec(bins@), p_mille as int);
    }
    let mut i: usize = 0;
    let mut cum: u128 = 0;
    while i < bins.len() && cum + (bins[i] as u128) < rank
        invariant
            bins@.len() == BIN_COUNT,
            0 <= i <= BIN_COUNT,
            cum == sum_prefix(bins@, i as int),
            cum <= 4000 * 0xffff_ffff_ffff_ffff,
            rank == rank_spec(total_spec(bins@), p_mille as int),
            rank <= total_spec(bins@),
            select_bucket_spec(bins@, rank as int) == select_from(
                bins@,
                rank as int,
                i as int,
                cum as int,
            ),
        decreases bins@.len() - i,
    {
        proof {
            lemma_sum_prefix_bounds(bins@, i as int);
            assert((i as int) * 0xffff_ffff_ffff_ffff <= 4000 * 0xffff_ffff_ffff_ffff)
                by (nonlinear_arith)
                requires
                    i <= 4000,
            ;
            assert(sum_prefix(bins@, i as int + 1) == cum + bins@[i as int]);
        }
        cum = cum + (bins[i] as u128);
        i = i + 1;
    }
    proof {
        assert(select_bucket_spec(bins@, rank as int) == i as int);
        lemma_select_bucket_props(bins@, rank as int);
        assert(i < BIN_COUNT);
    }
    decode_bucket(i)
}

/// Reconstructs the latency estimates for every percentile target, in the
/// order the targets are given.
pub fn reconstruct_all(bins: &Vec<u64>, p_tiles: &Vec<u64>) -> (vals: Vec<u64>)
    requires
        bins@.len() == BIN_COUNT,
        forall|k: int| 0 <= k < p_tiles@.len() ==> p_tiles@[k] <= 1000,
    ensures
        vals@.len() == p_tiles@.len(),
        forall|k: int|
            0 <= k < p_tiles@.len() ==> vals@[k] == reconstruct_spec(bins@, p_tiles@[k] as int),
{
    let mut vals: Vec<u64> = Vec::new();
    let mut k: usize = 0;
    while k < p_tiles.len()
        invariant
            bins@.len() == BIN_COUNT,
            forall|j: int| 0 <= j < p_tiles@.len() ==> p_tiles@[j] <= 1000,
            0 <= k <= p_tiles@.len(),
            vals@.len() == k,
            forall|j: int| 0 <= j < k ==> vals@[j] == reconstruct_spec(bins@, p_tiles@[j] as int),
        decreases p_tiles@.len() - k,
    {
        let v = percentile_value(bins, p_tiles[k]);
        vals.push(v);
        k = k + 1;
    }
    vals
}

} // verus!
