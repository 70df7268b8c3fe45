//! Detect array layouts in scattered scan hits.
//!
//! Real arrays of `T` produce a chain of hits whose addresses are separated
//! by exactly `sizeof(T)` bytes. This module finds the longest such run.

use vstd::prelude::*;

verus! {

/// A run of consecutive hits separated by an identical gap.
#[derive(Debug, Clone, Copy, PartialEq, Eq, Structural)]
pub struct StrideMatch {
    /// Constant gap (in bytes) between successive hits in the run.
    pub stride: usize,
    /// Number of hits that participate in the run.
    pub run_length: usize,
    /// Index in the input slice where the run starts.
    pub start_index: usize,
    /// Address of the first hit in the run.
    pub first_address: usize,
    /// Address of the last hit in the run.
    pub last_address: usize,
}

/// Difference between the hit at `k + 1` and the hit at `k`.
pub open spec fn gap(a: Seq<usize>, k: int) -> int {
    a[k + 1] - a[k]
}

/// No address is smaller than the one before it.
pub open spec fn no_descent(a: Seq<usize>) -> bool {
    forall|k: int| 0 <= k < a.len() - 1 ==> #[trigger] gap(a, k) >= 0
}

/// Every gap between positions `i` and `j` equals `s`.
pub open spec fn constant_gap(a: Seq<usize>, i: int, j: int, s: int) -> bool {
    forall|k: int| i <= k < j ==> #[trigger] gap(a, k) == s
}

/// Positions `i..=j` form a run of constant gap `s` (with `0 < s <= max_stride`)
/// that cannot be extended on either side.
pub open spec fn is_maximal_run(a: Seq<usize>, i: int, j: int, s: int, max_stride: int) -> bool {
    &&& 0 <= i < j < a.len()
    &&& 0 < s <= max_stride
    &&& constant_gap(a, i, j, s)
    &&& (i == 0 || gap(a, i - 1) != s)
    &&& (j == a.len() - 1 || gap(a, j) != s)
}

/// A maximal run that holds at least `min_run` hits.
pub open spec fn qualifies(
    a: Seq<usize>,
    i: int,
    j: int,
    s: int,
    min_run: int,
    max_stride: int,
) -> bool {
    is_maximal_run(a, i, j, s, max_stride) && j - i + 1 >= min_run
}

/// `m` describes the qualifying run that starts at `m.start_index`.
pub open spec fn describes_run(a: Seq<usize>, m: StrideMatch, min_run: int, max_stride: int) -> bool {
    let i = m.start_index as int;
    let j = m.start_index + m.run_length - 1;
    &&& qualifies(a, i, j, m.stride as int, min_run, max_stride)
    &&& m.first_address == a[i]
    &&& m.last_address == a[j]
}

/// `m` is a longest qualifying run, and no qualifying run of the same
/// length starts before it.
pub open spec fn is_earliest_longest(
    a: Seq<usize>,
    m: StrideMatch,
    min_run: int,
    max_stride: int,
) -> bool {
    &&& describes_run(a, m, min_run, max_stride)
    &&& forall|i: int, j: int, s: int|
        #[trigger] qualifies(a, i, j, s, min_run, max_stride) ==> j - i + 1 <= m.run_length
    &&& forall|i: int, j: int, s: int|
        #[trigger] qualifies(a, i, j, s, min_run, max_stride) && i < m.start_index ==> j - i + 1
            < m.run_length
}

/// Last position of the run of gap `s` that starts at `i`.
pub open spec fn run_end(a: Seq<usize>, i: int, s: int) -> int
    decreases a.len() - i,
{
    if 0 <= i && i + 1 < a.len() && gap(a, i) == s {
        run_end(a, i + 1, s)
    } else {
        i
    }
}

pub(crate) proof fn lemma_run_end(a: Seq<usize>, i: int, s: int)
    requires
        0 <= i < a.len(),
    ensures
        i <= run_end(a, i, s) < a.len(),
        constant_gap(a, i, run_end(a, i, s), s),
        run_end(a, i, s) == a.len() - 1 || gap(a, run_end(a, i, s)) != s,
    decreases a.len() - i,
{
    if i + 1 < a.len() && gap(a, i) == s {
        lemma_run_end(a, i + 1, s);
    }
}

pub(crate) proof fn lemma_run_end_unique(a: Seq<usize>, i: int, j: int, s: int)
    requires
        0 <= i <= j < a.len(),
        constant_gap(a, i, j, s),
        j == a.len() - 1 || gap(a, j) != s,
    ensures
        run_end(a, i, s) == j,
    decreases j - i,
{
    if i < j {
        assert(gap(a, i) == s);
        lemma_run_end_unique(a, i + 1, j, s);
    }
}

/// Find the longest run of consecutive addresses separated by an identical
/// gap, requiring at least `min_run` hits.
///
/// Returns `None` if no run reaches `min_run`, and also when some address is
/// smaller than the one before it (the addresses must be sorted). Gaps of
/// zero or above `max_stride` never belong to a run. Among runs of equal
/// length the first one wins.
pub fn detect_repeating_stride(
    addresses: &[usize],
    min_run: usize,
    max_stride: usize,
) -> (result: Option<StrideMatch>)
    ensures
        match result {
            Some(m) => no_descent(addresses@) && is_earliest_longest(
                addresses@,
                m,
                min_run as int,
                max_stride as int,
            ),
            None => !no_descent(addresses@) || forall|i: int, j: int, s: int|
                !#[trigger] qualifies(addresses@, i, j, s, min_run as int, max_stride as int),
        },
{
    let ghost a = addresses@;
    let ghost mn = min_run as int;
    let ghost mx = max_stride as int;
    let n = addresses.len();
    let threshold = if min_run > 2 {
        min_run
    } else {
        2
    };
    if n < threshold {
        assert forall|i: int, j: int, s: int| !#[trigger] qualifies(a, i, j, s, mn, mx) by {}
        return None;
    }
    let mut best: Option<StrideMatch> = None;
    let mut i: usize = 0;
    while i + 1 < n
        invariant
            n == a.len(),
            a == addresses@,
            mn == min_run,
            mx == max_stride,
            n >= 2,
            i < n,
            forall|k: int| 0 <= k < i ==> #[trigger] gap(a, k) >= 0,
            (i > 0 && i + 1 < n && gap(a, i - 1) == gap(a, i as int) && 0 < gap(a, i as int) <= mx)
                ==> run_end(a, i - 1, gap(a, i - 1)) - (i - 1) + 1 < mn,
            match best {
                None => forall|p: int, q: int, s: int| #[trigger]
                    qualifies(a, p, q, s, mn, mx) ==> p >= i,
                Some(m) => {
                    &&& m.start_index < i
                    &&& describes_run(a, m, mn, mx)
                    &&& forall|p: int, q: int, s: int| #[trigger]
                        qualifies(a, p, q, s, mn, mx) && p < i ==> q - p + 1 <= m.run_length
                    &&& forall|p: int, q: int, s: int| #[trigger]
                        qualifies(a, p, q, s, mn, mx) && p < m.start_index ==> q - p + 1
                            < m.run_length
                },
            },
        decreases n - i,
    {
        let ai = addresses[i];
        let ai1 = addresses[i + 1];
        if ai1 < ai {
            assert(gap(a, i as int) < 0);
            return None;
        }
        let stride = ai1 - ai;
        assert(gap(a, i as int) == stride);
        if stride == 0 || stride > max_stride {
            assert forall|p: int, q: int, s: int| #[trigger]
                qualifies(a, p, q, s, mn, mx) implies p != i by {
                if p == i {
                    assert(gap(a, p) == s);
                }
            }
            i += 1;
            continue;
        }
        let mut run: usize = 1;
        let mut j: usize = i;
        proof {
            lemma_run_end(a, i as int, stride as int);
        }
        while j + 1 < n && addresses[j + 1] >= addresses[j] && addresses[j + 1] - addresses[j]
            == stride
            invariant
                n == a.len(),
                a == addresses@,
                i <= j < n,
                run == j - i + 1,
                constant_gap(a, i as int, j as int, stride as int),
                run_end(a, i as int, stride as int) == run_end(a, j as int, stride as int),
            decreases n - j,
        {
            assert(gap(a, j as int) == stride);
            run += 1;
            j += 1;
        }
        proof {
            if j + 1 < n {
                assert(gap(a, j as int) != stride);
            }
            lemma_run_end_unique(a, j as int, j as int, stride as int);
        }
        assert(run_end(a, i as int, stride as int) == j);
        if run >= min_run {
            proof {
                // the run is left-maximal
                if i > 0 && gap(a, i - 1) == stride {
                    assert(gap(a, i as int) == stride);
                    assert(run_end(a, i - 1, stride as int) == run_end(a, i as int, stride as int));
                }
                assert forall|p: int, q: int, s: int| #[trigger]
                    qualifies(a, p, q, s, mn, mx) && i <= p < j implies p == i && q == j && s
                    == stride by {
                    if i < p {
                        assert(gap(a, p - 1) == stride);
                        assert(gap(a, p) == s);
                        assert(gap(a, p) == stride);
                    } else {
                        assert(gap(a, p) == s);
                        lemma_run_end_unique(a, p, q, s);
                    }
                }
                assert forall|k: int| 0 <= k < j implies #[trigger] gap(a, k) >= 0 by {
                    if k >= i {
                        assert(gap(a, k) == stride);
                    }
                }
                assert(qualifies(a, i as int, j as int, stride as int, mn, mx));
            }
            let cand = StrideMatch {
                stride,
                run_length: run,
                start_index: i,
                first_address: addresses[i],
                last_address: addresses[j],
            };
            let replace = match best {
                None => true,
                Some(b) => run > b.run_length,
            };
            if replace {
                best = Some(cand);
            }
            i = j;
        } else {
            proof {
                assert forall|p: int, q: int, s: int| #[trigger]
                    qualifies(a, p, q, s, mn, mx) implies p != i by {
                    if p == i {
                        assert(gap(a, p) == s);
                        lemma_run_end_unique(a, p, q, s);
                    }
                }
            }
            i += 1;
        }
    }
    best
}

/// Largest gap that [`report_strides`] accepts between two hits.
pub const REPORT_MAX_STRIDE: usize = 8192;

/// Fewest hits in a run that [`report_strides`] reports as an array.
pub const REPORT_MIN_RUN: usize = 3;

/// What the stride report of a list of hits says.
#[derive(Debug, Clone, Copy, PartialEq, Eq, Structural)]
pub enum StrideReport {
    /// Fewer than three hits: nothing to infer.
    TooFewHits,
    /// No run of three or more hits with one gap: the hits are scattered.
    Scattered,
    /// The longest run, found first among runs of its length.
    Detected(StrideMatch),
}

/// Position `i` starts a gap that may belong to a reported run.
pub open spec fn eligible(a: Seq<usize>, i: int) -> bool {
    0 <= i < a.len() - 1 && 0 < gap(a, i) <= REPORT_MAX_STRIDE
}

/// Number of hits in the run that starts at `i` with the gap found there.
pub open spec fn run_from(a: Seq<usize>, i: int) -> int {
    run_end(a, i, gap(a, i)) - i + 1
}

/// The report that the hits `a` (sorted by address) call for.
pub open spec fn stride_report_of(a: Seq<usize>, r: StrideReport) -> bool {
    match r {
        StrideReport::TooFewHits => a.len() < REPORT_MIN_RUN,
        StrideReport::Scattered => a.len() >= REPORT_MIN_RUN && forall|k: int|
            #[trigger] eligible(a, k) ==> run_from(a, k) < REPORT_MIN_RUN,
        StrideReport::Detected(m) => {
            let i = m.start_index as int;
            &&& a.len() >= REPORT_MIN_RUN
            &&& eligible(a, i)
            &&& m.stride == gap(a, i)
            &&& m.run_length == run_from(a, i)
            &&& m.run_length >= REPORT_MIN_RUN
            &&& m.first_address == a[i]
            &&& m.last_address == a[i + m.run_length - 1]
            &&& forall|k: int| #[trigger] eligible(a, k) ==> run_from(a, k) <= m.run_length
            &&& forall|k: int| #[trigger] eligible(a, k) && k < i ==> run_from(a, k) < m.run_length
        },
    }
}

/// Report the longest run of hits separated by one gap, scanning every
/// starting position in turn (a run may be counted from inside a longer
/// one; only a strictly longer run replaces the best so far). Gaps of zero
/// or above [`REPORT_MAX_STRIDE`] start no run.
pub fn report_strides(addrs: &[usize]) -> (r: StrideReport)
    requires
        no_descent(addrs@),
    ensures
        stride_report_of(addrs@, r),
{
    let ghost a = addrs@;
    let n = addrs.len();
    if n < REPORT_MIN_RUN {
        return StrideReport::TooFewHits;
    }
    let mut best_start: usize = 0;
    let mut best_stride: usize = 0;
    let mut best_run: usize = 0;
    let mut i: usize = 0;
    while i < n - 1
        invariant
            n == a.len(),
            a == addrs@,
            n >= REPORT_MIN_RUN,
            no_descent(a),
            i <= n - 1,
            best_run <= n,
            forall|k: int| 0 <= k < i && #[trigger] eligible(a, k) ==> run_from(a, k) <= best_run,
            best_run == 0 ==> forall|k: int| 0 <= k < i ==> !#[trigger] eligible(a, k),
            best_run > 0 ==> {
                &&& best_start < i
                &&& eligible(a, best_start as int)
                &&& best_stride == gap(a, best_start as int)
                &&& run_from(a, best_start as int) == best_run
                &&& forall|k: int| #[trigger] eligible(a, k) && k < best_start ==> run_from(a, k)
                    < best_run
            },
        decreases n - 1 - i,
    {
        assert(gap(a, i as int) >= 0);
        let stride = addrs[i + 1] - addrs[i];
        if stride == 0 || stride > REPORT_MAX_STRIDE {
            assert(!eligible(a, i as int));
            i += 1;
            continue;
        }
        assert(eligible(a, i as int));
        let mut run: usize = 1;
        let mut j: usize = i;
        proof {
            lemma_run_end(a, i as int, stride as int);
        }
        while j + 1 < n && addrs[j + 1] - addrs[j] == stride
            invariant
                n == a.len(),
                a == addrs@,
                no_descent(a),
                i <= j < n,
                run == j - i + 1,
                constant_gap(a, i as int, j as int, stride as int),
                run_end(a, i as int, stride as int) == run_end(a, j as int, stride as int),
            decreases n - j,
        {
            assert(gap(a, j as int) >= 0);
            assert(gap(a, j as int) == stride);
            run += 1;
            j += 1;
        }
        proof {
            if j + 1 < n {
                assert(gap(a, j as int) != stride);
            }
            lemma_run_end_unique(a, j as int, j as int, stride as int);
        }
        assert(run_from(a, i as int) == run);
        if run > best_run {
            best_run = run;
            best_stride = stride;
            best_start = i;
        }
        i += 1;
    }
    if best_run >= REPORT_MIN_RUN {
        proof {
            lemma_run_end(a, best_start as int, best_stride as int);
        }
        let last = best_start + best_run - 1;
        StrideReport::Detected(
            StrideMatch {
                stride: best_stride,
                run_length: best_run,
                start_index: best_start,
                first_address: addrs[best_start],
                last_address: addrs[last],
            },
        )
    } else {
        StrideReport::Scattered
    }
}

} // verus!
