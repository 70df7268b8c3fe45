//! Chunked aligned scan over a process address space.
//!
//! The half-open window `[start, end)` of the target's memory is streamed
//! through a reusable buffer of `CHUNK_SIZE + window` bytes, one chunk of
//! `CHUNK_SIZE` bytes after the other; every `alignment`-aligned offset of
//! a chunk that lies inside the window is a candidate, handed whole to the
//! caller's predicate. Unmapped pages (failed reads) skip one chunk and
//! the walk goes on; a window of which no chunk could be read is an
//! error. [`AlignedScan`] holds the decisions; the caller performs the
//! reads and evaluates the predicate.

use vstd::prelude::*;

verus! {

/// Size of each read during a scan: one Windows page.
pub const CHUNK_SIZE: usize = 4096;

/// A successful match during a scan.
#[derive(Debug, Clone, Copy)]
pub struct Hit<T> {
    /// Virtual address in the target where the matched value starts.
    pub address: usize,
    /// Copy of the matched value.
    pub value: T,
}

/// The candidate offsets of one chunk: `0, a, 2a, ...`, every one below
/// `CHUNK_SIZE` (the next chunk starts there).
pub open spec fn is_candidate_offsets(offs: Seq<usize>, a: int) -> bool {
    &&& offs.len() >= 1
    &&& forall|i: int| 0 <= i < offs.len() ==> #[trigger] offs[i] == i * a
    &&& (offs.len() - 1) * a < CHUNK_SIZE
    &&& CHUNK_SIZE <= offs.len() * a
}

/// The candidate offsets of one chunk for stride `alignment`.
pub fn candidate_offsets(alignment: usize) -> (r: Vec<usize>)
    requires
        alignment > 0,
    ensures
        is_candidate_offsets(r@, alignment as int),
{
    let mut offs: Vec<usize> = Vec::new();
    let mut off: usize = 0;
    let ghost mut i: int = 0;
    loop
        invariant_except_break
            offs@.len() == i,
        invariant
            alignment > 0,
            off < CHUNK_SIZE,
            off == i * alignment,
            forall|k: int| 0 <= k < offs@.len() ==> #[trigger] offs@[k] == k * alignment,
        ensures
            is_candidate_offsets(offs@, alignment as int),
        decreases CHUNK_SIZE - off,
    {
        offs.push(off);
        if CHUNK_SIZE - off <= alignment {
            assert((offs@.len() - 1) * alignment == off);
            assert(offs@.len() * alignment == off + alignment) by (nonlinear_arith)
                requires
                    offs@.len() == i + 1,
                    off == i * alignment,
            ;
            break;
        }
        assert((i + 1) * alignment == off + alignment) by (nonlinear_arith)
            requires
                off == i * alignment,
        ;
        off = off + alignment;
        proof {
            i = i + 1;
        }
    }
    offs
}

/// Hits recorded for one chunk read at `cursor`: `found[k]` is the value
/// accepted at candidate offset `k * a`, or `None`; candidates at or past
/// `end` are outside the window and dropped.
pub open spec fn accepted_hits<T>(cursor: int, a: int, found: Seq<Option<T>>, end: int) -> Seq<
    Hit<T>,
>
    decreases found.len(),
{
    if found.len() == 0 {
        Seq::empty()
    } else {
        let rest = accepted_hits(cursor, a, found.drop_last(), end);
        let addr = cursor + (found.len() - 1) * a;
        match found.last() {
            Some(v) => if addr < end {
                rest.push(Hit { address: addr as usize, value: v })
            } else {
                rest
            },
            None => rest,
        }
    }
}

/// Every hit address is below every later one.
pub open spec fn addresses_increasing<T>(s: Seq<Hit<T>>) -> bool {
    forall|i: int, j: int| 0 <= i < j < s.len() ==> s[i].address < s[j].address
}

proof fn lemma_accepted_hits_bounds<T>(cursor: int, a: int, found: Seq<Option<T>>, end: int)
    requires
        a > 0,
        0 <= cursor,
        cursor + (found.len() - 1) * a <= usize::MAX,
    ensures
        addresses_increasing(accepted_hits(cursor, a, found, end)),
        forall|i: int|
            0 <= i < accepted_hits(cursor, a, found, end).len() ==> {
                let h = #[trigger] accepted_hits(cursor, a, found, end)[i];
                &&& cursor <= h.address <= cursor + (found.len() - 1) * a
                &&& h.address < end
            },
    decreases found.len(),
{
    if found.len() > 0 {
        let pre = found.drop_last();
        assert((pre.len() - 1) * a + a == (found.len() - 1) * a) by (nonlinear_arith)
            requires
                pre.len() == found.len() - 1,
        ;
        lemma_accepted_hits_bounds(cursor, a, pre, end);
        assert((found.len() - 1) * a >= 0) by (nonlinear_arith)
            requires
                found.len() >= 1,
                a > 0,
        ;
    }
}

/// The scan window holds no readable chunk: every read failed.
#[derive(Debug, Clone, Copy, PartialEq, Eq, Structural)]
pub struct WindowUnreadable {
    /// Start of the window.
    pub start: usize,
    /// End of the window (exclusive).
    pub end: usize,
}

/// A scan of `[start, end)`, at `cursor` now; hits are collected in `hits`.
#[derive(Debug, Clone)]
pub struct AlignedScan<T> {
    /// Start of the window.
    pub start: usize,
    /// Address of the next chunk.
    pub cursor: usize,
    /// End of the window (exclusive).
    pub end: usize,
    /// Stride between candidate offsets within a chunk.
    pub alignment: usize,
    /// Size in bytes of one candidate.
    pub window: usize,
    /// Hits so far.
    pub hits: Vec<Hit<T>>,
    /// Some chunk was read.
    pub any_read: bool,
    /// Some chunk could not be read.
    pub any_failed: bool,
}

impl<T: Copy> AlignedScan<T> {
    /// The scan's parameters are usable, the cursor has not gone back
    /// before the window, and the hits lie in the window, before the
    /// cursor, in increasing address order (none before a chunk was read).
    pub open spec fn wf(&self) -> bool {
        &&& self.alignment > 0
        &&& self.window <= usize::MAX - CHUNK_SIZE
        &&& self.start <= self.cursor
        &&& addresses_increasing(self.hits@)
        &&& forall|i: int|
            0 <= i < self.hits@.len() ==> {
                let h = #[trigger] self.hits@[i];
                self.start <= h.address < self.end && h.address < self.cursor
            }
        &&& !self.any_read ==> self.hits@.len() == 0
    }

    /// A scan of `[start, end)` for candidates of `window` bytes at every
    /// `alignment`-th offset.
    pub fn new(start: usize, end: usize, alignment: usize, window: usize) -> (r: AlignedScan<T>)
        requires
            alignment > 0,
            window <= usize::MAX - CHUNK_SIZE,
        ensures
            r.wf(),
            r.start == start,
            r.cursor == start,
            r.end == end,
            r.alignment == alignment,
            r.window == window,
            r.hits@.len() == 0,
            !r.any_read,
            !r.any_failed,
    {
        AlignedScan {
            start,
            cursor: start,
            end,
            alignment,
            window,
            hits: Vec::new(),
            any_read: false,
            any_failed: false,
        }
    }

    /// Bytes to read per chunk: one chunk plus room for a candidate that
    /// starts near its end.
    pub fn read_len(&self) -> (r: usize)
        requires
            self.wf(),
        ensures
            r == CHUNK_SIZE + self.window,
    {
        CHUNK_SIZE + self.window
    }

    /// Address of the next chunk, or `None` once the window is done.
    pub fn next_read(&self) -> (r: Option<usize>)
        ensures
            r == (if self.cursor < self.end {
                Some(self.cursor)
            } else {
                None::<usize>
            }),
    {
        if self.cursor < self.end {
            Some(self.cursor)
        } else {
            None
        }
    }

    /// Candidate offsets of every chunk.
    pub fn offsets(&self) -> (r: Vec<usize>)
        requires
            self.wf(),
        ensures
            is_candidate_offsets(r@, self.alignment as int),
    {
        candidate_offsets(self.alignment)
    }

    /// Records the chunk read at the cursor: `found[k]` is the value the
    /// predicate accepted at offset `offsets()[k]`, if any (one answer per
    /// offset). Candidates at or past the window's end are dropped. The
    /// cursor moves one chunk forward.
    pub fn record(&mut self, found: Vec<Option<T>>)
        requires
            old(self).wf(),
            old(self).cursor < old(self).end,
            old(self).cursor + CHUNK_SIZE <= usize::MAX,
            found@.len() >= 1,
            (found@.len() - 1) * old(self).alignment < CHUNK_SIZE,
            CHUNK_SIZE <= found@.len() * old(self).alignment,
        ensures
            final(self).wf(),
            final(self).start == old(self).start,
            final(self).end == old(self).end,
            final(self).alignment == old(self).alignment,
            final(self).window == old(self).window,
            final(self).cursor == old(self).cursor + CHUNK_SIZE,
            final(self).hits@ == old(self).hits@ + accepted_hits(
                old(self).cursor as int,
                old(self).alignment as int,
                found@,
                old(self).end as int,
            ),
            final(self).any_read,
            final(self).any_failed == old(self).any_failed,
    {
        let ghost old_hits = self.hits@;
        let ghost cur = self.cursor as int;
        let ghost a = self.alignment as int;
        let ghost e = self.end as int;
        proof {
            lemma_accepted_hits_bounds(cur, a, found@, e);
        }
        let mut k: usize = 0;
        let mut off: usize = 0;
        while k < found.len()
            invariant
                k <= found@.len(),
                k < found@.len() ==> off == k * a,
                a == self.alignment,
                a > 0,
                cur == self.cursor,
                e == self.end,
                cur < e,
                cur + CHUNK_SIZE <= usize::MAX,
                (found@.len() - 1) * a < CHUNK_SIZE,
                self.start == old(self).start,
                self.window == old(self).window,
                self.any_failed == old(self).any_failed,
                self.hits@ == old_hits + accepted_hits(cur, a, found@.take(k as int), e),
            decreases found@.len() - k,
        {
            let ghost pre = found@.take(k as int);
            let ghost ext = found@.take(k + 1);
            assert(ext.drop_last() =~= pre);
            assert(k * a <= (found@.len() - 1) * a) by (nonlinear_arith)
                requires
                    k < found@.len(),
                    a > 0,
            ;
            match found[k] {
                Some(v) => {
                    if off < self.end - self.cursor {
                        self.hits.push(Hit { address: self.cursor + off, value: v });
                    }
                    assert(self.hits@ =~= old_hits + accepted_hits(cur, a, ext, e));
                },
                None => {
                    assert(self.hits@ =~= old_hits + accepted_hits(cur, a, ext, e));
                },
            }
            k += 1;
            if k < found.len() {
                assert(k * a <= (found@.len() - 1) * a) by (nonlinear_arith)
                    requires
                        k < found@.len(),
                        a > 0,
                ;
                assert(k * a == off + a) by (nonlinear_arith)
                    requires
                        off == (k - 1) * a,
                ;
                off = off + self.alignment;
            }
        }
        assert(found@.take(found@.len() as int) =~= found@);
        let ghost added = accepted_hits(cur, a, found@, e);
        let ghost all = self.hits@;
        assert forall|i: int, j: int| 0 <= i < j < all.len() implies all[i].address
            < all[j].address by {
            if j >= old_hits.len() && i < old_hits.len() {
                assert(all[i] == old_hits[i]);
                assert(all[j] == added[j - old_hits.len()]);
            } else if i >= old_hits.len() {
                assert(all[i] == added[i - old_hits.len()]);
                assert(all[j] == added[j - old_hits.len()]);
            } else {
                assert(all[i] == old_hits[i]);
                assert(all[j] == old_hits[j]);
            }
        }
        self.cursor = self.cursor + CHUNK_SIZE;
        self.any_read = true;
        assert forall|i: int| 0 <= i < all.len() implies {
            let h = #[trigger] all[i];
            self.start <= h.address < self.end && h.address < self.cursor
        } by {
            if i >= old_hits.len() {
                assert(all[i] == added[i - old_hits.len()]);
            } else {
                assert(all[i] == old_hits[i]);
            }
        }
    }

    /// The chunk at the cursor could not be read (unmapped page): skip it.
    pub fn skip(&mut self)
        requires
            old(self).wf(),
        ensures
            final(self).wf(),
            final(self).start == old(self).start,
            final(self).end == old(self).end,
            final(self).alignment == old(self).alignment,
            final(self).window == old(self).window,
            final(self).cursor == old(self).cursor.saturating_add(CHUNK_SIZE),
            final(self).hits@ == old(self).hits@,
            final(self).any_read == old(self).any_read,
            final(self).any_failed,
    {
        self.cursor = self.cursor.saturating_add(CHUNK_SIZE);
        self.any_failed = true;
    }

    /// The outcome of the walk: the hits, unless chunks were attempted and
    /// none of them could be read (partial coverage is fine, total failure
    /// is not).
    pub fn finish(self) -> (r: Result<Vec<Hit<T>>, WindowUnreadable>)
        requires
            self.wf(),
        ensures
            match r {
                Ok(h) => h@ == self.hits@ && !(self.any_failed && !self.any_read),
                Err(w) => self.any_failed && !self.any_read && w == (WindowUnreadable {
                    start: self.start,
                    end: self.end,
                }),
            },
    {
        if self.any_failed && !self.any_read {
            Err(WindowUnreadable { start: self.start, end: self.end })
        } else {
            Ok(self.hits)
        }
    }
}

/// Keeps the first hit of each cluster: a hit is dropped when it starts
/// less than `size` bytes after the last hit kept.
pub open spec fn dedup_spec<T>(s: Seq<Hit<T>>, size: int) -> Seq<Hit<T>>
    decreases s.len(),
{
    if s.len() == 0 {
        Seq::empty()
    } else {
        let d = dedup_spec(s.drop_last(), size);
        if d.len() > 0 && s.last().address < d.last().address + size {
            d
        } else {
            d.push(s.last())
        }
    }
}

/// Drops the overlapping copies of a match: one real `T` at `X` also
/// passes the filter at `X + 4`, `X + 8`, ... Of each cluster, the first
/// hit stays.
pub fn dedup_overlapping<T: Copy>(hits: &Vec<Hit<T>>, size: usize) -> (r: Vec<Hit<T>>)
    ensures
        r@ == dedup_spec(hits@, size as int),
{
    let mut out: Vec<Hit<T>> = Vec::new();
    let mut k: usize = 0;
    assert(hits@.take(0) =~= Seq::<Hit<T>>::empty());
    while k < hits.len()
        invariant
            k <= hits@.len(),
            out@ == dedup_spec(hits@.take(k as int), size as int),
        decreases hits@.len() - k,
    {
        let ghost ext = hits@.take(k + 1);
        assert(ext.drop_last() =~= hits@.take(k as int));
        let h = hits[k];
        let n = out.len();
        let keep = if n > 0 {
            let last = out[n - 1].address;
            h.address >= last && h.address - last >= size
        } else {
            true
        };
        if keep {
            out.push(h);
        }
        k += 1;
    }
    assert(hits@.take(hits@.len() as int) =~= hits@);
    out
}

} // verus!
