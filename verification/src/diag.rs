//! Bookkeeping of the diagnostic subcommands: the scan window around a
//! centre address, the doctor's pass/warn/fail tally, the exclusion of the
//! engine's snapshot history ring from a view-angle search, and the
//! addresses of the view angles in that ring.

use vstd::prelude::*;

verus! {

/// Stride of the engine's `cl.snapshots[]` history entries (`sizeof(clSnapshot_t)`).
pub const SNAPSHOT_STRIDE: usize = 0x21C;
/// Number of entries in the engine's snapshot history ring.
pub const NUM_SNAPSHOTS: usize = 32;
/// Margin kept around the snapshot history ring when excluding it.
pub const RING_MARGIN: usize = 0x1000;

/// The window `[center - range, center + range)`, both ends saturating.
pub fn scan_window(center: usize, range: usize) -> (r: (usize, usize))
    ensures
        r.0 == center.saturating_sub(range),
        r.1 == center.saturating_add(range),
        r.0 <= r.1,
{
    (center.saturating_sub(range), center.saturating_add(range))
}

/// Outcome of one doctor check.
#[derive(Debug, Clone, Copy, PartialEq, Eq, Structural)]
pub enum StatusKind {
    /// The precondition holds.
    Pass,
    /// Not fatal, but worth a look.
    Warn,
    /// A precondition of the other subcommands does not hold.
    Fail,
}

/// Number of `k` in `s`.
pub open spec fn count_kind(s: Seq<StatusKind>, k: StatusKind) -> nat
    decreases s.len(),
{
    if s.len() == 0 {
        0
    } else {
        count_kind(s.drop_last(), k) + if s.last() == k {
            1nat
        } else {
            0nat
        }
    }
}

proof fn lemma_count_kind_le(s: Seq<StatusKind>, k: StatusKind)
    ensures
        count_kind(s, k) <= s.len(),
    decreases s.len(),
{
    if s.len() > 0 {
        lemma_count_kind_le(s.drop_last(), k);
    }
}

/// Number of failed and of warning checks.
pub fn tally(kinds: &[StatusKind]) -> (r: (usize, usize))
    ensures
        r.0 == count_kind(kinds@, StatusKind::Fail),
        r.1 == count_kind(kinds@, StatusKind::Warn),
{
    let mut fails: usize = 0;
    let mut warns: usize = 0;
    let mut i: usize = 0;
    assert(kinds@.take(0) =~= Seq::<StatusKind>::empty());
    while i < kinds.len()
        invariant
            i <= kinds@.len(),
            fails == count_kind(kinds@.take(i as int), StatusKind::Fail),
            warns == count_kind(kinds@.take(i as int), StatusKind::Warn),
        decreases kinds@.len() - i,
    {
        let ghost ext = kinds@.take(i + 1);
        assert(ext.drop_last() =~= kinds@.take(i as int));
        proof {
            lemma_count_kind_le(kinds@.take(i as int), StatusKind::Fail);
            lemma_count_kind_le(kinds@.take(i as int), StatusKind::Warn);
        }
        match kinds[i] {
            StatusKind::Fail => {
                fails += 1;
            },
            StatusKind::Warn => {
                warns += 1;
            },
            StatusKind::Pass => {},
        }
        i += 1;
    }
    assert(kinds@.take(kinds@.len() as int) =~= kinds@);
    (fails, warns)
}

/// The doctor's closing line.
#[derive(Debug, Clone, Copy, PartialEq, Eq, Structural)]
pub enum Verdict {
    /// At least one check failed.
    Failed,
    /// Every critical check passed, with warnings.
    Warned,
    /// Every check passed.
    AllPassed,
}

/// The closing line for `fails` failures and `warns` warnings.
pub fn verdict(fails: usize, warns: usize) -> (r: Verdict)
    ensures
        r == (if fails > 0 {
            Verdict::Failed
        } else if warns > 0 {
            Verdict::Warned
        } else {
            Verdict::AllPassed
        }),
{
    if fails > 0 {
        Verdict::Failed
    } else if warns > 0 {
        Verdict::Warned
    } else {
        Verdict::AllPassed
    }
}

/// The window around the snapshot history ring at `snap_addr` that a
/// view-angle search leaves out: a page before it, the 32 entries, a page after.
pub fn ring_exclusion(snap_addr: usize) -> (r: (usize, usize))
    requires
        snap_addr + NUM_SNAPSHOTS * SNAPSHOT_STRIDE + RING_MARGIN <= usize::MAX,
    ensures
        r.0 == snap_addr.saturating_sub(RING_MARGIN),
        r.1 == snap_addr + NUM_SNAPSHOTS * SNAPSHOT_STRIDE + RING_MARGIN,
{
    (snap_addr.saturating_sub(RING_MARGIN), snap_addr + NUM_SNAPSHOTS * SNAPSHOT_STRIDE + RING_MARGIN)
}

/// The addresses outside `[start, end)`, in their order.
pub open spec fn outside_of(s: Seq<usize>, start: usize, end: usize) -> Seq<usize>
    decreases s.len(),
{
    if s.len() == 0 {
        Seq::empty()
    } else if s.last() < start || s.last() >= end {
        outside_of(s.drop_last(), start, end).push(s.last())
    } else {
        outside_of(s.drop_last(), start, end)
    }
}

/// Keeps the candidates outside `[start, end)`.
pub fn outside_window(candidates: &[usize], start: usize, end: usize) -> (r: Vec<usize>)
    ensures
        r@ == outside_of(candidates@, start, end),
{
    let mut out: Vec<usize> = Vec::new();
    let mut i: usize = 0;
    assert(candidates@.take(0) =~= Seq::<usize>::empty());
    while i < candidates.len()
        invariant
            i <= candidates@.len(),
            out@ == outside_of(candidates@.take(i as int), start, end),
        decreases candidates@.len() - i,
    {
        let ghost ext = candidates@.take(i + 1);
        assert(ext.drop_last() =~= candidates@.take(i as int));
        let a = candidates[i];
        if a < start || a >= end {
            out.push(a);
        }
        i += 1;
    }
    assert(candidates@.take(candidates@.len() as int) =~= candidates@);
    out
}

/// Offset of `addr` from a module's base, if it lies at or after it.
pub fn module_offset(addr: usize, base: usize) -> (r: Option<usize>)
    ensures
        r == (if addr >= base {
            Some((addr - base) as usize)
        } else {
            None::<usize>
        }),
{
    addr.checked_sub(base)
}

/// Addresses of one view-angle component in the 32 entries of the
/// snapshot history ring: `module_base + offset + i * 0x21C`.
pub fn ring_addresses(module_base: usize, offset: usize) -> (r: Vec<usize>)
    requires
        module_base + offset + (NUM_SNAPSHOTS - 1) * SNAPSHOT_STRIDE <= usize::MAX,
    ensures
        r@.len() == NUM_SNAPSHOTS,
        forall|i: int|
            0 <= i < NUM_SNAPSHOTS ==> #[trigger] r@[i] == module_base + offset + i
                * SNAPSHOT_STRIDE,
{
    let mut out: Vec<usize> = Vec::new();
    let mut i: usize = 0;
    while i < NUM_SNAPSHOTS
        invariant
            i <= NUM_SNAPSHOTS,
            module_base + offset + (NUM_SNAPSHOTS - 1) * SNAPSHOT_STRIDE <= usize::MAX,
            out@.len() == i,
            forall|k: int|
                0 <= k < i ==> #[trigger] out@[k] == module_base + offset + k * SNAPSHOT_STRIDE,
        decreases NUM_SNAPSHOTS - i,
    {
        out.push(module_base + offset + i * SNAPSHOT_STRIDE);
        i += 1;
    }
    out
}

} // verus!
