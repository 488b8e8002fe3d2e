//! Latency sample aggregation.
//!
//! A non-empty sequence of round-trip samples (whole microseconds) is sorted
//! ascending; the report takes the minimum and maximum from the ends, the
//! truncated mean, and nearest-rank percentiles: percentile `p` is the value
//! at zero-based index `floor(count * p / 100)` of the sorted copy, with no
//! interpolation.

use vstd::prelude::*;
use vstd::arithmetic::div_mod::{
    lemma_div_is_ordered, lemma_div_pos_is_pos, lemma_multiply_divide_le, lemma_multiply_divide_lt,
};

verus! {

broadcast use vstd::seq_lib::group_to_multiset_ensures, vstd::seq_lib::to_multiset_insert;

/// Ascending order: no element exceeds a later one.
pub open spec fn sorted_asc(s: Seq<u64>) -> bool {
    forall|i: int, j: int| 0 <= i <= j < s.len() ==> s[i] <= s[j]
}

/// The sum of all samples.
pub open spec fn sum_micros(s: Seq<u64>) -> int
    decreases s.len(),
{
    if s.len() == 0 {
        0
    } else {
        sum_micros(s.drop_last()) + s.last()
    }
}

/// The truncated mean: the sum divided by the count, rounded toward zero.
pub open spec fn mean_micros(s: Seq<u64>) -> int
    recommends
        s.len() > 0,
{
    sum_micros(s) / (s.len() as int)
}

/// Zero-based nearest-rank index of a percentile given in hundredths of a
/// percent (`chp`: the 50th percentile is 5000, the 99.9th is 9990). Equals
/// `floor(len * p / 100)` for the percentile `p = chp / 100`.
pub open spec fn pct_index(len: int, chp: int) -> int {
    len * chp / 10000
}

/// Summary statistics over one run's samples, in whole microseconds.
///
/// Built only from a sorted copy of a non-empty sample sequence, which
/// enforces by construction that
/// `min <= p50 <= p90 <= p95 <= p99 <= p99_9 <= p99_99 <= max`.
#[derive(Clone, Copy, PartialEq, Eq, Structural, Debug)]
pub struct LatencyReport {
    /// Smallest sample.
    pub min: u64,
    /// Largest sample.
    pub max: u64,
    /// Truncated mean of all samples.
    pub mean: u64,
    /// 50th percentile, nearest rank.
    pub p50: u64,
    /// 90th percentile, nearest rank.
    pub p90: u64,
    /// 95th percentile, nearest rank.
    pub p95: u64,
    /// 99th percentile, nearest rank.
    pub p99: u64,
    /// 99.9th percentile, nearest rank.
    pub p99_9: u64,
    /// 99.99th percentile, nearest rank.
    pub p99_99: u64,
}

/// What a report says of the sorted sample sequence it was derived from.
pub open spec fn report_matches(r: LatencyReport, s: Seq<u64>) -> bool {
    &&& r.min == s[0]
    &&& r.max == s[s.len() - 1]
    &&& r.mean == mean_micros(s)
    &&& r.p50 == s[pct_index(s.len() as int, 5000)]
    &&& r.p90 == s[pct_index(s.len() as int, 9000)]
    &&& r.p95 == s[pct_index(s.len() as int, 9500)]
    &&& r.p99 == s[pct_index(s.len() as int, 9900)]
    &&& r.p99_9 == s[pct_index(s.len() as int, 9990)]
    &&& r.p99_99 == s[pct_index(s.len() as int, 9999)]
}

/// Sorts the samples ascending; the result holds exactly the same samples.
pub fn sort_samples(v: &Vec<u64>) -> (r: Vec<u64>)
    ensures
        sorted_asc(r@),
        r@.to_multiset() == v@.to_multiset(),
        r@.len() == v@.len(),
{
    let mut r: Vec<u64> = Vec::new();
    let mut i: usize = 0;
    while i < v.len()
        invariant
            i <= v@.len(),
            r@.len() == i,
            sorted_asc(r@),
            r@.to_multiset() == v@.subrange(0, i as int).to_multiset(),
        decreases v@.len() - i,
    {
        let x = v[i];
        let mut pos: usize = 0;
        while pos < r.len() && r[pos] <= x
            invariant
                pos <= r@.len(),
                forall|k: int| 0 <= k < pos ==> r@[k] <= x,
            decreases r@.len() - pos,
        {
            pos = pos + 1;
        }
        let ghost s_old = r@;
        r.insert(pos, x);
        proof {
            s_old.insert_ensures(pos as int, x);
            assert forall|a: int, b: int| 0 <= a <= b < r@.len() implies r@[a] <= r@[b] by {
                if b < pos {
                    assert(r@[a] == s_old[a] && r@[b] == s_old[b]);
                } else if a < pos && b == pos {
                    assert(r@[a] == s_old[a] && r@[b] == x);
                } else if a < pos && b > pos {
                    assert(r@[a] == s_old[a] && r@[b] == s_old[b - 1]);
                } else if a == pos && b == pos {
                } else if a == pos && b > pos {
                    assert(r@[b] == s_old[b - 1]);
                    assert(x <= s_old[pos as int]);
                    assert(s_old[pos as int] <= s_old[b - 1]);
                } else {
                    assert(r@[a] == s_old[a - 1] && r@[b] == s_old[b - 1]);
                }
            }
            assert(v@.subrange(0, (i + 1) as int) =~= v@.subrange(0, i as int).push(x));
            assert(r@.to_multiset() =~= v@.subrange(0, (i + 1) as int).to_multiset());
        }
        i = i + 1;
    }
    proof {
        assert(v@.subrange(0, i as int) =~= v@);
    }
    r
}

/// Computes the percentile index `pct_index(len, chp)` and shows it lies
/// within a sequence of length `len`.
fn pct_index_exec(len: usize, chp: u64) -> (r: usize)
    requires
        1 <= len,
        chp < 10000,
    ensures
        r as int == pct_index(len as int, chp as int),
        r < len,
{
    proof {
        assert((len as int) * (chp as int) <= (len as int) * 9999) by (nonlinear_arith)
            requires
                (chp as int) <= 9999,
                (len as int) >= 1,
        ;
        assert((len as int) * (chp as int) < 10000 * (len as int)) by (nonlinear_arith)
            requires
                (chp as int) < 10000,
                (len as int) >= 1,
        ;
        lemma_multiply_divide_lt((len as int) * (chp as int), 10000, len as int);
        lemma_div_pos_is_pos((len as int) * (chp as int), 10000);
    }
    let wide: u128 = (len as u128) * (chp as u128) / 10000;
    wide as usize
}

/// Sums the samples; the sum of `u64` values always fits in a `u128`.
fn sum_exec(s: &Vec<u64>) -> (r: u128)
    ensures
        r as int == sum_micros(s@),
{
    let mut sum: u128 = 0;
    let mut i: usize = 0;
    while i < s.len()
        invariant
            i <= s@.len(),
            sum as int == sum_micros(s@.subrange(0, i as int)),
            sum as int <= (i as int) * 0xffff_ffff_ffff_ffff,
        decreases s@.len() - i,
    {
        proof {
            let t = s@.subrange(0, i as int);
            let t2 = s@.subrange(0, (i + 1) as int);
            assert(t2.drop_last() =~= t);
            assert(t2.last() == s@[i as int]);
            assert(sum_micros(t2) == sum_micros(t) + s@[i as int]);
        }
        sum = sum + (s[i] as u128);
        i = i + 1;
    }
    proof {
        assert(s@.subrange(0, i as int) =~= s@);
    }
    sum
}

/// Computes the truncated mean; it never exceeds `u64::MAX`, because the sum
/// is at most the count times the largest possible sample.
fn mean_exec(s: &Vec<u64>) -> (r: u64)
    requires
        s@.len() > 0,
    ensures
        r as int == mean_micros(s@),
{
    let sum = sum_exec(s);
    let n = s.len();
    proof {
        lemma_sum_bounded(s@);
        assert((s@.len() as int) * 0xffff_ffff_ffff_ffff
            == 0xffff_ffff_ffff_ffff * (s@.len() as int));
        lemma_multiply_divide_le(sum as int, s@.len() as int, 0xffff_ffff_ffff_ffff);
        lemma_div_pos_is_pos(sum as int, s@.len() as int);
    }
    (sum / (n as u128)) as u64
}

/// The sum of a sample sequence is at most its length times `u64::MAX`.
proof fn lemma_sum_bounded(s: Seq<u64>)
    ensures
        0 <= sum_micros(s) <= (s.len() as int) * 0xffff_ffff_ffff_ffff,
    decreases s.len(),
{
    if s.len() == 0 {
    } else {
        lemma_sum_bounded(s.drop_last());
    }
}

impl LatencyReport {
    /// Reads the report off an already sorted, non-empty sample sequence.
    pub fn from_sorted(s: &Vec<u64>) -> (r: LatencyReport)
        requires
            s@.len() > 0,
            sorted_asc(s@),
        ensures
            report_matches(r, s@),
    {
        let n = s.len();
        LatencyReport {
            min: s[0],
            max: s[n - 1],
            mean: mean_exec(s),
            p50: s[pct_index_exec(n, 5000)],
            p90: s[pct_index_exec(n, 9000)],
            p95: s[pct_index_exec(n, 9500)],
            p99: s[pct_index_exec(n, 9900)],
            p99_9: s[pct_index_exec(n, 9990)],
            p99_99: s[pct_index_exec(n, 9999)],
        }
    }

    /// Derives the report from a non-empty sample sequence in any order:
    /// sorts a copy ascending, then reads the report off the sorted copy.
    /// The percentile cut points always come out in ascending order.
    pub fn from_samples(samples: &Vec<u64>) -> (r: LatencyReport)
        requires
            samples@.len() > 0,
        ensures
            exists|s: Seq<u64>|
                {
                    &&& sorted_asc(s)
                    &&& s.to_multiset() == samples@.to_multiset()
                    &&& s.len() == samples@.len()
                    &&& #[trigger] report_matches(r, s)
                },
            r.min <= r.p50 <= r.p90 <= r.p95 <= r.p99 <= r.p99_9 <= r.p99_99 <= r.max,
    {
        let sorted_copy = sort_samples(samples);
        let r = LatencyReport::from_sorted(&sorted_copy);
        proof {
            lemma_report_ordered(r, sorted_copy@);
            assert(sorted_asc(sorted_copy@) && sorted_copy@.to_multiset()
                == samples@.to_multiset() && sorted_copy@.len() == samples@.len()
                && report_matches(r, sorted_copy@));
        }
        r
    }
}

/// Two ascending sequences holding the same samples are the same sequence,
/// so the sorted copy that `from_samples` speaks of is unique.
pub proof fn lemma_sorted_asc_unique(x: Seq<u64>, y: Seq<u64>)
    requires
        sorted_asc(x),
        sorted_asc(y),
        x.to_multiset() == y.to_multiset(),
    ensures
        x == y,
{
    let leq = |a: u64, b: u64| a <= b;
    assert(vstd::relations::total_ordering(leq)) by {
        assert(forall|a: u64, b: u64| #[trigger] leq(a, b) || #[trigger] leq(b, a));
    }
    vstd::seq_lib::lemma_sorted_unique(x, y, leq);
    assert(x =~= y);
}

/// A report read off a sorted sequence has its cut points in ascending
/// order: `min <= p50 <= p90 <= p95 <= p99 <= p99_9 <= p99_99 <= max`.
/// The percentile indices grow with the percentile, and a sorted sequence
/// grows with the index.
pub proof fn lemma_report_ordered(r: LatencyReport, s: Seq<u64>)
    requires
        s.len() > 0,
        sorted_asc(s),
        report_matches(r, s),
    ensures
        r.min <= r.p50 <= r.p90 <= r.p95 <= r.p99 <= r.p99_9 <= r.p99_99 <= r.max,
{
    let n = s.len() as int;
    lemma_div_pos_is_pos(n * 5000, 10000);
    lemma_div_is_ordered(n * 5000, n * 9000, 10000);
    lemma_div_is_ordered(n * 9000, n * 9500, 10000);
    lemma_div_is_ordered(n * 9500, n * 9900, 10000);
    lemma_div_is_ordered(n * 9900, n * 9990, 10000);
    lemma_div_is_ordered(n * 9990, n * 9999, 10000);
    lemma_multiply_divide_lt(n * 9999, 10000, n);
}

} // verus!
