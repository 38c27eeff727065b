//! The histogram recorder and its snapshot cycle.
//!
//! A `LatencyTimer` owns 4000 bucket counters, a running maximum, the
//! timestamp of the most recent mark (zero standing for "no prior mark"),
//! the percentile targets, a stop flag for the reporter loop, and the
//! timestamp of the previous snapshot. Marks record the clamped interval
//! since the previous mark; a snapshot is a destructive read that reports
//! the period's counts and percentile estimates and resets the counters.
//! Timestamps are nanoseconds of the instrument's own monotonic clock,
//! which starts at zero when the instrument is built.
//!
//! Percentile targets are held in tenths of a percent, so the target
//! "ninety-nine point nine percent" is the integer 999.

use crate::bucket::{bucket_index, bucket_index_spec, BIN_COUNT};
use crate::clock::{elapsed_nanos, epoch_millis, instant_now};
use crate::percentile::{reconstruct_all, reconstruct_spec, sum_bins, total_spec};
use vstd::arithmetic::div_mod::{lemma_basic_div, lemma_div_of0};
use vstd::prelude::*;

verus! {

/// One period's report: the reconstructed latency for each percentile
/// target (in the order of the targets), the event count, the largest raw
/// latency, the wall-clock time of the snapshot in milliseconds, and the
/// period's length in nanoseconds.
pub struct LatRet {
    pub nanos: Vec<u64>,
    pub p_tiles: Vec<u64>,
    pub total: u64,
    pub max_nanos: u64,
    pub snap_time_millis: u128,
    pub duration_nanos: u64,
}

impl LatRet {
    /// One reconstructed value per target, each target in tenths of a
    /// percent.
    pub open spec fn wf(&self) -> bool {
        &&& self.nanos@.len() == self.p_tiles@.len()
        &&& forall|k: int| 0 <= k < self.p_tiles@.len() ==> self.p_tiles@[k] <= 1000
    }
}

/// The reporting sink: accepts one period's result under the instrument's
/// name and does with it whatever the implementation chooses.
pub trait LatPrinter {
    fn log(&self, name: &str, lat_ret: &LatRet)
        requires
            lat_ret.wf(),
    ;
}

/// The reference sink: renders the result and writes it to the console.
pub struct DefaultPrinter {}

/// Every counter of the histogram is zero.
pub open spec fn all_zero(s: Seq<u64>) -> bool {
    forall|i: int| 0 <= i < s.len() ==> s[i] == 0
}

/// An unsigned difference clamped to non-negative, absorbing clock
/// anomalies.
pub open spec fn sat_sub(a: u64, b: u64) -> u64 {
    if a > b {
        (a - b) as u64
    } else {
        0
    }
}

/// A counter increment that sticks at the counter's ceiling instead of
/// wrapping.
pub open spec fn sat_inc(c: u64) -> u64 {
    if c == u64::MAX {
        c
    } else {
        (c + 1) as u64
    }
}

/// An integer clamped into the range of a 64-bit counter.
pub open spec fn sat_u64(n: int) -> u64 {
    if n > u64::MAX {
        u64::MAX
    } else {
        n as u64
    }
}

/// The max-accumulate update applied for one recorded value.
pub open spec fn max_after(m: u64, v: u64) -> u64 {
    if v > m {
        v
    } else {
        m
    }
}

/// The bucket counters after one value is recorded: the value's slot is
/// incremented, every other slot is untouched.
pub open spec fn bins_after_record(bins: Seq<u64>, v: u64) -> Seq<u64> {
    bins.update(
        bucket_index_spec(v as nat) as int,
        sat_inc(bins[bucket_index_spec(v as nat) as int]),
    )
}

/// The default percentile targets, in tenths of a percent: 1%, 50%, 75%,
/// 90%, 95%, 99% and 99.9%.
pub open spec fn default_targets_spec() -> Seq<u64> {
    seq![10u64, 500u64, 750u64, 900u64, 950u64, 990u64, 999u64]
}

/// Builds the default percentile targets.
pub fn default_targets() -> (t: Vec<u64>)
    ensures
        t@ == default_targets_spec(),
{
    let mut t: Vec<u64> = Vec::new();
    t.push(10);
    t.push(500);
    t.push(750);
    t.push(900);
    t.push(950);
    t.push(990);
    t.push(999);
    proof {
        assert(t@ =~= default_targets_spec());
    }
    t
}

/// Builds a histogram of all-zero counters.
fn make_bins() -> (bins: Vec<u64>)
    ensures
        bins@.len() == BIN_COUNT,
        all_zero(bins@),
{
    let mut bins: Vec<u64> = Vec::new();
    let mut i: usize = 0;
    while i < BIN_COUNT
        invariant
            bins@.len() == i,
            0 <= i <= BIN_COUNT,
            all_zero(bins@),
        decreases BIN_COUNT - i,
    {
        bins.push(0);
        i = i + 1;
    }
    bins
}

/// Copies a vector of counters.
fn copy_counts(v: &Vec<u64>) -> (c: Vec<u64>)
    ensures
        c@ == v@,
{
    let mut c: Vec<u64> = Vec::new();
    let mut i: usize = 0;
    while i < v.len()
        invariant
            0 <= i <= v@.len(),
            c@ == v@.take(i as int),
        decreases v@.len() - i,
    {
        c.push(v[i]);
        proof {
            assert(c@ =~= v@.take(i + 1));
        }
        i = i + 1;
    }
    proof {
        assert(v@.take(v@.len() as int) =~= v@);
    }
    c
}

/// Throughput of a period, in hundredths of an event per second: the total
/// divided by the duration in seconds, rounded to the nearest hundredth,
/// and zero — not a division by zero — for an empty duration.
pub open spec fn throughput_centi_spec(total: int, duration_nanos: int) -> int {
    if duration_nanos == 0 {
        0
    } else {
        (total * 100000000000 + duration_nanos / 2) / duration_nanos
    }
}

/// Computes a period's throughput in hundredths of an event per second.
pub fn throughput_centi(total: u64, duration_nanos: u64) -> (c: u128)
    ensures
        c == throughput_centi_spec(total as int, duration_nanos as int),
        duration_nanos == 0 ==> c == 0,
        total == 0 ==> c == 0,
{
    if duration_nanos == 0 {
        0
    } else {
        proof {
            assert((total as int) * 100000000000 <= (0xffff_ffff_ffff_ffff as int)
                * 100000000000) by (nonlinear_arith)
                requires
                    total <= 0xffff_ffff_ffff_ffff,
            ;
            if total == 0 {
                lemma_basic_div((duration_nanos / 2) as int, duration_nanos as int);
            }
        }
        ((total as u128) * 100000000000u128 + (duration_nanos as u128) / 2) / (
        duration_nanos as u128)
    }
}

/// Builds one period's report from a read of the recorder's state: the
/// saturated total, the given maximum, one reconstructed latency per
/// percentile target in target order, and the period's timing.
pub fn snapshot_from_counts(
    bins: &Vec<u64>,
    max_nanos: u64,
    p_tiles: &Vec<u64>,
    duration_nanos: u64,
    snap_time_millis: u128,
) -> (ret: LatRet)
    requires
        bins@.len() == BIN_COUNT,
        forall|k: int| 0 <= k < p_tiles@.len() ==> p_tiles@[k] <= 1000,
    ensures
        ret.wf(),
        ret.total == sat_u64(total_spec(bins@)),
        ret.max_nanos == max_nanos,
        ret.p_tiles@ == p_tiles@,
        ret.nanos@.len() == p_tiles@.len(),
        forall|k: int|
            0 <= k < p_tiles@.len() ==> ret.nanos@[k] == reconstruct_spec(
                bins@,
                p_tiles@[k] as int,
            ),
        ret.duration_nanos == duration_nanos,
        ret.snap_time_millis == snap_time_millis,
{
    let total128 = sum_bins(bins);
    let total = if total128 > u64::MAX as u128 {
        u64::MAX
    } else {
        total128 as u64
    };
    let nanos = reconstruct_all(bins, p_tiles);
    LatRet {
        nanos,
        p_tiles: copy_counts(p_tiles),
        total,
        max_nanos,
        snap_time_millis,
        duration_nanos,
    }
}

/// The recorder: bucket counters, running maximum, mark and snapshot
/// timestamps, percentile targets, the stop flag, the sink the reporter
/// loop hands results to, and the instrument's own monotonic clock — the
/// instant of construction, against which every timestamp is read.
pub struct LatencyTimer<T> where T: LatPrinter {
    name: String,
    lat_printer: T,
    start: std::time::Instant,
    bins: Vec<u64>,
    max_nanos: u64,
    last_count: u64,
    p_tiles: Vec<u64>,
    die: bool,
    last_snap_time_nanos: u64,
}

impl<T> LatencyTimer<T> where T: LatPrinter {
    /// The histogram holds one counter per slot and every percentile target
    /// is at most one thousand tenths of a percent.
    pub closed spec fn wf(&self) -> bool {
        &&& self.bins@.len() == BIN_COUNT
        &&& forall|k: int| 0 <= k < self.p_tiles@.len() ==> self.p_tiles@[k] <= 1000
    }

    /// The histogram's counters.
    pub closed spec fn bins_view(&self) -> Seq<u64> {
        self.bins@
    }

    /// The largest raw latency recorded since the last reset.
    pub closed spec fn max_nanos_spec(&self) -> u64 {
        self.max_nanos
    }

    /// The timestamp of the most recent mark; zero means "no prior mark".
    pub closed spec fn last_count_spec(&self) -> u64 {
        self.last_count
    }

    /// The percentile targets, in tenths of a percent.
    pub closed spec fn p_tiles_view(&self) -> Seq<u64> {
        self.p_tiles@
    }

    /// The stop flag the reporter loop observes.
    pub closed spec fn die_spec(&self) -> bool {
        self.die
    }

    /// The timestamp of the previous snapshot.
    pub closed spec fn last_snap_spec(&self) -> u64 {
        self.last_snap_time_nanos
    }

    /// The instrument's name.
    pub closed spec fn name_view(&self) -> Seq<char> {
        self.name@
    }

    /// The sink the reporter loop hands results to.
    pub closed spec fn printer_spec(&self) -> T {
        self.lat_printer
    }

    /// The instant of construction: timestamp zero of the instrument's
    /// monotonic clock.
    pub closed spec fn start_spec(&self) -> std::time::Instant {
        self.start
    }

    /// Builds a fresh recorder around the given sink: all counters zero, no
    /// prior mark, the default percentile targets, and the moment of
    /// construction as the first period's start — timestamp zero of the
    /// instrument's own monotonic clock.
    pub fn new_with_printer(t: T) -> (s: Self)
        ensures
            s.wf(),
            s.name_view() == "noname"@,
            s.printer_spec() == t,
            all_zero(s.bins_view()),
            s.bins_view().len() == BIN_COUNT,
            s.max_nanos_spec() == 0,
            s.last_count_spec() == 0,
            s.die_spec() == false,
            s.last_snap_spec() == 0,
            s.p_tiles_view() == default_targets_spec(),
    {
        LatencyTimer {
            name: String::from_str("noname"),
            lat_printer: t,
            start: instant_now(),
            bins: make_bins(),
            max_nanos: 0,
            last_count: 0,
            p_tiles: default_targets(),
            die: false,
            last_snap_time_nanos: 0,
        }
    }

    /// Records one raw latency: max-accumulates the running maximum and
    /// increments the value's bucket counter, saturating instead of
    /// wrapping. Never fails; an out-of-range latency lands in the last
    /// bucket.
    pub fn count2(&mut self, latency_nanos: u64)
        requires
            old(self).wf(),
        ensures
            final(self).wf(),
            final(self).bins_view() == bins_after_record(old(self).bins_view(), latency_nanos),
            final(self).max_nanos_spec() == max_after(old(self).max_nanos_spec(), latency_nanos),
            final(self).last_count_spec() == old(self).last_count_spec(),
            final(self).p_tiles_view() == old(self).p_tiles_view(),
            final(self).die_spec() == old(self).die_spec(),
            final(self).last_snap_spec() == old(self).last_snap_spec(),
            final(self).name_view() == old(self).name_view(),
            final(self).printer_spec() == old(self).printer_spec(),
            final(self).start_spec() == old(self).start_spec(),
    {
        if latency_nanos > self.max_nanos {
            self.max_nanos = latency_nanos;
        }
        let index = bucket_index(latency_nanos);
        let c = self.bins[index];
        if c < u64::MAX {
            self.bins[index] = c + 1;
        } else {
            proof {
                assert(bins_after_record(old(self).bins@, latency_nanos) =~= self.bins@);
            }
        }
    }

    /// Marks an event at the given timestamp: swaps it into the mark
    /// timestamp and, unless there was no prior mark, records the clamped
    /// interval since the previous one. The first mark only establishes the
    /// baseline and records nothing.
    pub fn count1_at(&mut self, now: u64)
        requires
            old(self).wf(),
        ensures
            final(self).wf(),
            final(self).last_count_spec() == now,
            old(self).last_count_spec() == 0 ==> final(self).bins_view() == old(
                self,
            ).bins_view() && final(self).max_nanos_spec() == old(self).max_nanos_spec(),
            old(self).last_count_spec() != 0 ==> final(self).bins_view() == bins_after_record(
                old(self).bins_view(),
                sat_sub(now, old(self).last_count_spec()),
            ) && final(self).max_nanos_spec() == max_after(
                old(self).max_nanos_spec(),
                sat_sub(now, old(self).last_count_spec()),
            ),
            final(self).p_tiles_view() == old(self).p_tiles_view(),
            final(self).die_spec() == old(self).die_spec(),
            final(self).last_snap_spec() == old(self).last_snap_spec(),
            final(self).name_view() == old(self).name_view(),
            final(self).printer_spec() == old(self).printer_spec(),
            final(self).start_spec() == old(self).start_spec(),
    {
        let last = self.last_count;
        self.last_count = now;
        if last != 0 {
            let diff = if now > last {
                now - last
            } else {
                0
            };
            self.count2(diff);
        }
    }

    /// Marks an event at the current time. The recorded interval is the
    /// clamped difference between the new mark timestamp and the previous
    /// one; the first mark after construction records nothing.
    pub fn count1(&mut self)
        requires
            old(self).wf(),
        ensures
            final(self).wf(),
            old(self).last_count_spec() == 0 ==> final(self).bins_view() == old(
                self,
            ).bins_view() && final(self).max_nanos_spec() == old(self).max_nanos_spec(),
            old(self).last_count_spec() != 0 ==> final(self).bins_view() == bins_after_record(
                old(self).bins_view(),
                sat_sub(final(self).last_count_spec(), old(self).last_count_spec()),
            ) && final(self).max_nanos_spec() == max_after(
                old(self).max_nanos_spec(),
                sat_sub(final(self).last_count_spec(), old(self).last_count_spec()),
            ),
            final(self).p_tiles_view() == old(self).p_tiles_view(),
            final(self).die_spec() == old(self).die_spec(),
            final(self).last_snap_spec() == old(self).last_snap_spec(),
            final(self).name_view() == old(self).name_view(),
            final(self).printer_spec() == old(self).printer_spec(),
            final(self).start_spec() == old(self).start_spec(),
    {
        let now = elapsed_nanos(&self.start);
        self.count1_at(now);
    }

    /// Zeroes every bucket counter and the running maximum; the mark and
    /// snapshot timestamps are untouched.
    pub fn reset(&mut self)
        requires
            old(self).wf(),
        ensures
            final(self).wf(),
            final(self).bins_view().len() == BIN_COUNT,
            all_zero(final(self).bins_view()),
            final(self).max_nanos_spec() == 0,
            final(self).last_count_spec() == old(self).last_count_spec(),
            final(self).p_tiles_view() == old(self).p_tiles_view(),
            final(self).die_spec() == old(self).die_spec(),
            final(self).last_snap_spec() == old(self).last_snap_spec(),
            final(self).name_view() == old(self).name_view(),
            final(self).printer_spec() == old(self).printer_spec(),
            final(self).start_spec() == old(self).start_spec(),
    {
        self.bins = make_bins();
        self.max_nanos = 0;
    }

    /// Sets the stop flag: the reporter loop exits at its next turn.
    pub fn die(&mut self)
        requires
            old(self).wf(),
        ensures
            final(self).wf(),
            final(self).die_spec() == true,
            final(self).bins_view() == old(self).bins_view(),
            final(self).max_nanos_spec() == old(self).max_nanos_spec(),
            final(self).last_count_spec() == old(self).last_count_spec(),
            final(self).p_tiles_view() == old(self).p_tiles_view(),
            final(self).last_snap_spec() == old(self).last_snap_spec(),
            final(self).name_view() == old(self).name_view(),
            final(self).printer_spec() == old(self).printer_spec(),
            final(self).start_spec() == old(self).start_spec(),
    {
        self.die = true;
    }

    /// A destructive read at the given timestamps: reports the period that
    /// ended now — saturated total, maximum, one reconstructed latency per
    /// percentile target, and the clamped duration since the previous
    /// snapshot — then zeroes the counters and the maximum and starts the
    /// next period at the given time.
    pub fn snap_at(&mut self, cur_time_nanos: u64, wall_millis: u128) -> (ret: LatRet)
        requires
            old(self).wf(),
        ensures
            final(self).wf(),
            ret.wf(),
            ret.total == sat_u64(total_spec(old(self).bins_view())),
            ret.max_nanos == old(self).max_nanos_spec(),
            ret.p_tiles@ == old(self).p_tiles_view(),
            ret.nanos@.len() == old(self).p_tiles_view().len(),
            forall|k: int|
                0 <= k < old(self).p_tiles_view().len() ==> ret.nanos@[k] == reconstruct_spec(
                    old(self).bins_view(),
                    old(self).p_tiles_view()[k] as int,
                ),
            ret.duration_nanos == sat_sub(cur_time_nanos, old(self).last_snap_spec()),
            ret.snap_time_millis == wall_millis,
            final(self).bins_view().len() == BIN_COUNT,
            all_zero(final(self).bins_view()),
            final(self).max_nanos_spec() == 0,
            final(self).last_snap_spec() == cur_time_nanos,
            final(self).last_count_spec() == old(self).last_count_spec(),
            final(self).p_tiles_view() == old(self).p_tiles_view(),
            final(self).die_spec() == old(self).die_spec(),
            final(self).name_view() == old(self).name_view(),
            final(self).printer_spec() == old(self).printer_spec(),
            final(self).start_spec() == old(self).start_spec(),
    {
        let duration = if cur_time_nanos > self.last_snap_time_nanos {
            cur_time_nanos - self.last_snap_time_nanos
        } else {
            0
        };
        let ret = snapshot_from_counts(
            &self.bins,
            self.max_nanos,
            &self.p_tiles,
            duration,
            wall_millis,
        );
        self.reset();
        self.last_snap_time_nanos = cur_time_nanos;
        ret
    }

    /// A destructive read at the current time: as `snap_at`, with the
    /// period's end and the wall-clock stamp taken from the clock. The
    /// duration reported is the clamped difference between the new snapshot
    /// timestamp and the previous one.
    pub fn snap(&mut self) -> (ret: LatRet)
        requires
            old(self).wf(),
        ensures
            final(self).wf(),
            ret.wf(),
            ret.total == sat_u64(total_spec(old(self).bins_view())),
            ret.max_nanos == old(self).max_nanos_spec(),
            ret.p_tiles@ == old(self).p_tiles_view(),
            ret.nanos@.len() == old(self).p_tiles_view().len(),
            forall|k: int|
                0 <= k < old(self).p_tiles_view().len() ==> ret.nanos@[k] == reconstruct_spec(
                    old(self).bins_view(),
                    old(self).p_tiles_view()[k] as int,
                ),
            ret.duration_nanos == sat_sub(final(self).last_snap_spec(), old(self).last_snap_spec()),
            final(self).bins_view().len() == BIN_COUNT,
            all_zero(final(self).bins_view()),
            final(self).max_nanos_spec() == 0,
            final(self).last_count_spec() == old(self).last_count_spec(),
            final(self).p_tiles_view() == old(self).p_tiles_view(),
            final(self).die_spec() == old(self).die_spec(),
            final(self).name_view() == old(self).name_view(),
            final(self).printer_spec() == old(self).printer_spec(),
            final(self).start_spec() == old(self).start_spec(),
    {
        let cur = elapsed_nanos(&self.start);
        let wall = epoch_millis();
        self.snap_at(cur, wall)
    }

    /// One turn of the reporter loop after its sleep: takes a snapshot,
    /// then checks the stop flag; when the flag is set the turn reports
    /// nothing and the loop must exit, otherwise the result is handed to
    /// the sink under the instrument's name.
    pub fn run_step(&mut self) -> (stop: bool)
        requires
            old(self).wf(),
        ensures
            final(self).wf(),
            stop == old(self).die_spec(),
            final(self).bins_view().len() == BIN_COUNT,
            all_zero(final(self).bins_view()),
            final(self).max_nanos_spec() == 0,
            final(self).last_count_spec() == old(self).last_count_spec(),
            final(self).p_tiles_view() == old(self).p_tiles_view(),
            final(self).die_spec() == old(self).die_spec(),
            final(self).name_view() == old(self).name_view(),
            final(self).printer_spec() == old(self).printer_spec(),
            final(self).start_spec() == old(self).start_spec(),
    {
        let ret = self.snap();
        if self.die {
            true
        } else {
            self.lat_printer.log(self.name.as_str(), &ret);
            false
        }
    }
}

impl Default for LatencyTimer<DefaultPrinter> {
    /// A fresh recorder reporting to the console sink.
    fn default() -> (s: Self)
        ensures
            s.wf(),
            s.name_view() == "noname"@,
            s.printer_spec() == (DefaultPrinter {  }),
            all_zero(s.bins_view()),
            s.bins_view().len() == BIN_COUNT,
            s.max_nanos_spec() == 0,
            s.last_count_spec() == 0,
            s.die_spec() == false,
            s.last_snap_spec() == 0,
            s.p_tiles_view() == default_targets_spec(),
    {
        LatencyTimer::new_with_printer(DefaultPrinter {  })
    }
}

/// The max-accumulate update folded over a whole sequence of recorded
/// values, starting from the accumulator `m`.
pub open spec fn max_after_seq(m: u64, vs: Seq<u64>) -> u64
    decreases vs.len(),
{
    if vs.len() == 0 {
        m
    } else {
        max_after_seq(max_after(m, vs[0]), vs.drop_first())
    }
}

/// Monotonic max: after recording any sequence of values on a fresh
/// maximum, the accumulated maximum is one of the recorded values (or the
/// starting accumulator) and no recorded value exceeds it — it is exactly
/// the largest value observed.
pub proof fn lemma_monotonic_max(m: u64, vs: Seq<u64>)
    ensures
        max_after_seq(m, vs) == m || vs.contains(max_after_seq(m, vs)),
        m <= max_after_seq(m, vs),
        forall|i: int| 0 <= i < vs.len() ==> vs[i] <= max_after_seq(m, vs),
    decreases vs.len(),
{
    if vs.len() > 0 {
        let m1 = max_after(m, vs[0]);
        lemma_monotonic_max(m1, vs.drop_first());
        let r = max_after_seq(m, vs);
        assert(r == max_after_seq(m1, vs.drop_first()));
        if r == m1 && m1 != m {
            assert(vs[0] == m1);
            assert(vs.contains(r));
        }
        if vs.drop_first().contains(r) {
            let j = choose|j: int| 0 <= j < vs.drop_first().len() && vs.drop_first()[j] == r;
            assert(vs[j + 1] == r);
            assert(vs.contains(r));
        }
        assert forall|i: int| 0 <= i < vs.len() implies vs[i] <= r by {
            if i == 0 {
                assert(vs[0] <= m1);
            } else {
                assert(vs.drop_first()[i - 1] == vs[i]);
            }
        }
    }
}

/// The accumulated maximum does not depend on the order the values arrive
/// in: two recording orders of the same values end at the same maximum.
pub proof fn lemma_max_order_independent(vs: Seq<u64>, ws: Seq<u64>)
    requires
        vs.to_multiset() == ws.to_multiset(),
    ensures
        max_after_seq(0, vs) == max_after_seq(0, ws),
{
    lemma_monotonic_max(0, vs);
    lemma_monotonic_max(0, ws);
    vs.to_multiset_ensures();
    ws.to_multiset_ensures();
    let a = max_after_seq(0, vs);
    let b = max_after_seq(0, ws);
    if a != 0 {
        assert(vs.contains(a));
        assert(vs.to_multiset().count(a) > 0);
        assert(ws.to_multiset().count(a) > 0);
        assert(ws.contains(a));
        let j = choose|j: int| 0 <= j < ws.len() && ws[j] == a;
        assert(a <= b);
    }
    if b != 0 {
        assert(ws.contains(b));
        assert(ws.to_multiset().count(b) > 0);
        assert(vs.to_multiset().count(b) > 0);
        assert(vs.contains(b));
        let j = choose|j: int| 0 <= j < vs.len() && vs[j] == b;
        assert(b <= a);
    }
}

/// Every counter of an all-zero histogram sums to zero.
proof fn lemma_sum_prefix_zero(s: Seq<u64>, n: int)
    requires
        0 <= n <= s.len(),
        all_zero(s),
    ensures
        crate::percentile::sum_prefix(s, n) == 0,
    decreases n,
{
    if n > 0 {
        lemma_sum_prefix_zero(s, n - 1);
    }
}

/// An empty period: with every counter at zero a snapshot reports a total
/// of zero, each percentile reconstructs to the first slot's upper edge,
/// and the derived throughput is zero — as it also is for a period of zero
/// duration. Since a snapshot leaves every counter and the maximum at zero,
/// a second snapshot with no intervening mark reports exactly this.
pub proof fn lemma_empty_snapshot(s: Seq<u64>, p_mille: int, duration: int)
    requires
        s.len() == BIN_COUNT,
        all_zero(s),
        0 <= p_mille <= 1000,
        0 <= duration,
    ensures
        total_spec(s) == 0,
        sat_u64(total_spec(s)) == 0,
        reconstruct_spec(s, p_mille) == 1,
        throughput_centi_spec(0, duration) == 0,
{
    lemma_sum_prefix_zero(s, s.len() as int);
    assert(crate::percentile::rank_spec(0, p_mille) == 0) by {
        assert(0 * p_mille == 0);
        lemma_div_of0(1000);
    }
    assert(crate::percentile::select_bucket_spec(s, 0) == 0) by {
        assert(crate::percentile::select_from(s, 0, 0, 0) == 0);
    }
    assert(crate::bucket::decode_spec(0) == 1) by {
        crate::bucket::lemma_pow1000_values();
    }
    if duration != 0 {
        assert(0 * 100000000000 == 0);
        lemma_basic_div(duration / 2, duration);
    }
}

} // verus!
