//! The bucketing scheme: a raw nanosecond latency is quantized into one of
//! four "tiers", each holding one thousand linear sub-buckets. Values below
//! 1000 map to their own slot; larger values are repeatedly divided by 1000,
//! each division consuming one tier of 1000 slots, and the final index is
//! clamped to the last valid slot. Decoding reverses the promotion and
//! reports the upper edge of the slot, a conservative estimate.

use vstd::arithmetic::div_mod::{
    lemma_div_denominator, lemma_fundamental_div_mod, lemma_multiply_divide_lt,
};
use vstd::prelude::*;

verus! {

/// Number of counter slots in the histogram: four tiers, each of one
/// thousand linear sub-buckets.
pub const BIN_COUNT: usize = 4000;

/// 1000 raised to the given tier.
pub open spec fn pow1000(t: nat) -> nat
    decreases t,
{
    if t == 0 {
        1
    } else {
        1000 * pow1000((t - 1) as nat)
    }
}

/// Tier promotion before clamping: divide by 1000 until the remainder is
/// below 1000, each division adding 1000 to the index.
pub open spec fn bucket_raw(v: nat) -> nat
    decreases v,
{
    if v < 1000 {
        v
    } else {
        (1000 + bucket_raw(v / 1000)) as nat
    }
}

/// The slot a raw nanosecond latency is counted in: tier promotion, clamped
/// to the last valid slot.
pub open spec fn bucket_index_spec(v: nat) -> nat {
    if bucket_raw(v) < (BIN_COUNT - 1) as nat {
        bucket_raw(v)
    } else {
        (BIN_COUNT - 1) as nat
    }
}

/// The latency a slot stands for: one more than the slot's offset within its
/// tier, scaled by the tier's resolution — the upper edge of the slot's
/// value range.
pub open spec fn decode_spec(i: nat) -> nat {
    (i % 1000 + 1) * pow1000(i / 1000)
}

/// An index never promotes past what its magnitude demands: a value below
/// `pow1000(k + 1)` reaches at most tier `k`.
proof fn lemma_bucket_raw_bound(n: nat, k: nat)
    requires
        n < pow1000(k + 1),
    ensures
        bucket_raw(n) <= 1000 * k + 999,
    decreases k,
{
    if n < 1000 {
        assert(bucket_raw(n) == n);
    } else {
        assert(pow1000(1) == 1000 * pow1000(0));
        assert(pow1000(0) == 1);
        if k == 0 {
            assert(false);
        } else {
            assert(pow1000(k + 1) == 1000 * pow1000(k));
            lemma_multiply_divide_lt(n as int, 1000, pow1000(k) as int);
            assert(n / 1000 < pow1000(k));
            lemma_bucket_raw_bound(n / 1000, (k - 1) as nat);
        }
    }
}

/// The first eight powers of 1000, unfolded.
pub proof fn lemma_pow1000_values()
    ensures
        pow1000(0) == 1,
        pow1000(1) == 1000,
        pow1000(2) == 1000000,
        pow1000(3) == 1000000000,
        pow1000(7) == 1000000000000000000000,
{
    assert(pow1000(1) == 1000 * pow1000(0));
    assert(pow1000(2) == 1000 * pow1000(1));
    assert(pow1000(3) == 1000 * pow1000(2));
    assert(pow1000(4) == 1000 * pow1000(3));
    assert(pow1000(5) == 1000 * pow1000(4));
    assert(pow1000(6) == 1000 * pow1000(5));
    assert(pow1000(7) == 1000 * pow1000(6));
}

/// Every 64-bit value fits under seven tiers of promotion.
proof fn lemma_bucket_raw_bound_u64(v: u64)
    ensures
        bucket_raw(v as nat) <= 6999,
{
    lemma_pow1000_values();
    lemma_bucket_raw_bound(v as nat, 6);
}

/// Computes the histogram slot of a raw latency, exactly as the bucketing
/// scheme specifies.
pub fn bucket_index(v: u64) -> (i: usize)
    ensures
        i == bucket_index_spec(v as nat),
        i < BIN_COUNT,
{
    let mut latency: u64 = v;
    let mut index: u64 = 0;
    proof {
        lemma_bucket_raw_bound_u64(v);
    }
    while latency >= 1000
        invariant
            bucket_raw(v as nat) == index + bucket_raw(latency as nat),
            bucket_raw(v as nat) <= 6999,
        decreases latency,
    {
        latency = latency / 1000;
        index = index + 1000;
    }
    assert(bucket_raw(latency as nat) == latency as nat);
    let raw = index + latency;
    if raw < (BIN_COUNT - 1) as u64 {
        raw as usize
    } else {
        BIN_COUNT - 1
    }
}

/// Decodes a histogram slot back to the latency it stands for.
pub fn decode_bucket(i: usize) -> (v: u64)
    requires
        i < BIN_COUNT,
    ensures
        v == decode_spec(i as nat),
{
    let rem: u64 = (i % 1000) as u64;
    let mul: u64 = if i < 1000 {
        1
    } else if i < 2000 {
        1000
    } else if i < 3000 {
        1000000
    } else {
        1000000000
    };
    proof {
        lemma_pow1000_values();
        assert(mul == pow1000(i as nat / 1000));
        assert((rem + 1) * mul <= 1000 * 1000000000) by (nonlinear_arith)
            requires
                rem < 1000,
                mul <= 1000000000,
        ;
    }
    (rem + 1) * mul
}

/// The resolution of the tier a value falls in: how far apart two adjacent
/// slots of that tier lie.
pub open spec fn resolution_of(v: nat) -> nat {
    if v < 1000 {
        1
    } else if v < 1000000 {
        1000
    } else if v < 1000000000 {
        1000000
    } else {
        1000000000
    }
}

/// Bucketing round-trip bound: for a raw latency within the first three
/// tiers, decoding its slot yields a value strictly above the latency and at
/// most one tier resolution beyond it.
pub proof fn lemma_bucket_round_trip(v: u64)
    requires
        v < 1000000000,
    ensures
        v < decode_spec(bucket_index_spec(v as nat)),
        decode_spec(bucket_index_spec(v as nat)) <= v + resolution_of(v as nat),
{
    let n = v as nat;
    lemma_pow1000_values();
    if n < 1000 {
        assert(bucket_raw(n) == n);
        assert(decode_spec(n) == (n + 1) * 1);
    } else if n < 1000000 {
        let q = n / 1000;
        lemma_multiply_divide_lt(n as int, 1000, 1000);
        assert(q < 1000);
        assert(bucket_raw(n) == 1000 + bucket_raw(q));
        assert(bucket_raw(q) == q);
        assert(bucket_raw(n) == 1000 + q);
        let i = (1000 + q) as nat;
        assert(i < 3999);
        assert(bucket_index_spec(n) == i);
        assert(i % 1000 == q);
        assert(i / 1000 == 1);
        assert(decode_spec(i) == (q + 1) * 1000);
        lemma_fundamental_div_mod(n as int, 1000);
        assert(n == 1000 * q + n % 1000);
        assert((q + 1) * 1000 == 1000 * q + 1000) by (nonlinear_arith);
    } else {
        let q1 = n / 1000;
        lemma_multiply_divide_lt(n as int, 1000, 1000000);
        assert(q1 < 1000000);
        assert(q1 >= 1000) by {
            lemma_div_denominator(n as int, 1, 1000);
        }
        let q = q1 / 1000;
        lemma_multiply_divide_lt(q1 as int, 1000, 1000);
        assert(q < 1000);
        assert(bucket_raw(n) == 1000 + bucket_raw(q1));
        assert(bucket_raw(q1) == 1000 + bucket_raw(q));
        assert(bucket_raw(q) == q);
        let i = (2000 + q) as nat;
        assert(bucket_index_spec(n) == i);
        assert(i % 1000 == q);
        assert(i / 1000 == 2);
        assert(decode_spec(i) == (q + 1) * 1000000);
        lemma_div_denominator(n as int, 1000, 1000);
        assert(q == n / 1000000);
        lemma_fundamental_div_mod(n as int, 1000000);
        assert(n == 1000000 * q + n % 1000000);
        assert((q + 1) * 1000000 == 1000000 * q + 1000000) by (nonlinear_arith);
    }
}

} // verus!

