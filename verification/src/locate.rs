//! Locating `cg.activeSnapshots` in the client's heap.
//!
//! The heap window is read chunk by chunk; at every 4-byte offset of a
//! chunk the next 516 bytes are taken as a candidate [`SnapshotHeader`] and
//! run through a sanity filter. The two active snapshots sit exactly
//! `sizeof(snapshot_t) = 53 772` bytes apart, and the newer one (larger
//! `serverTime`) is `cg.snap`.

use vstd::prelude::*;
use crate::floatbits::{
    abs_ge, f32_abs_ge, f32_is_finite, f32_vec3_is_zero, is_finite, vec3_is_zero, F32_MAP_LIMIT,
};
use crate::layout::{
    i32_le, i32s_at, is_snapshot_header_at, vec3_at, SnapshotHeader, Vec3Bits, MAX_CLIENTS,
    MAX_ENTITIES_IN_SNAPSHOT, SNAPSHOT_HEADER_SIZE, SNAPSHOT_SIZE, STAT_HEALTH,
};

verus! {

/// `pm_type` of a normally moving, alive player.
pub const PM_NORMAL: i32 = 0;

/// Bytes fetched per step of the walk: one chunk plus room for a header
/// that straddles its end.
pub const SNAPSHOT_SCAN_CHUNK: usize = 4096;

/// Length of each read during the walk (`4096 + 516`).
pub const SNAPSHOT_READ_LEN: usize = 4612;

/// Which sanity filter a walk applies.
#[derive(Debug, Clone, Copy, PartialEq, Eq, Structural)]
pub enum SnapshotFilter {
    /// The filter of the one-shot dump: an all-zero or unpopulated block
    /// is rejected, as is a normal player without HP or position.
    Strict,
    /// The filter of the polling loops: at least one entity, no check
    /// on emptiness.
    Live,
}

/// The header fields that the filters read.
#[derive(Debug, Clone, Copy, PartialEq, Eq, Structural)]
pub struct HeaderProbe {
    /// `num_entities`.
    pub num_entities: i32,
    /// `server_time`.
    pub server_time: i32,
    /// `ping`.
    pub ping: i32,
    /// `ps.command_time`.
    pub command_time: i32,
    /// `ps.pm_type`.
    pub pm_type: i32,
    /// `ps.client_num`.
    pub client_num: i32,
    /// `ps.weapon`.
    pub weapon: i32,
    /// `ps.origin`.
    pub origin: Vec3Bits,
    /// `ps.velocity`.
    pub velocity: Vec3Bits,
    /// `ps.viewangles`.
    pub viewangles: Vec3Bits,
    /// `ps.stats[STAT_HEALTH]`.
    pub health: i32,
}

/// The filtered fields of a decoded header.
pub open spec fn probe_of(h: SnapshotHeader) -> HeaderProbe {
    HeaderProbe {
        num_entities: h.num_entities,
        server_time: h.server_time,
        ping: h.ping,
        command_time: h.ps.command_time,
        pm_type: h.ps.pm_type,
        client_num: h.ps.client_num,
        weapon: h.ps.weapon,
        origin: h.ps.origin,
        velocity: h.ps.velocity,
        viewangles: h.ps.viewangles,
        health: h.ps.stats@[STAT_HEALTH as int],
    }
}

/// The filtered fields of the header stored at `b[base..base + 516]`.
pub open spec fn probe_at(b: Seq<u8>, base: int) -> HeaderProbe {
    HeaderProbe {
        num_entities: i32_le(b, base + 512),
        server_time: i32_le(b, base + 8),
        ping: i32_le(b, base + 4),
        command_time: i32_le(b, base + 44),
        pm_type: i32_le(b, base + 48),
        client_num: i32_le(b, base + 184),
        weapon: i32_le(b, base + 188),
        origin: vec3_at(b, base + 64),
        velocity: vec3_at(b, base + 76),
        viewangles: vec3_at(b, base + 196),
        health: i32_le(b, base + 228),
    }
}

/// Fields shared by both filters: time, ping, slot, weapon, movement
/// type, an in-map finite origin and a plausible HP.
pub open spec fn common_plausible(p: HeaderProbe) -> bool {
    &&& p.server_time >= 1000
    &&& 0 <= p.ping <= 2000
    &&& 0 <= p.client_num < MAX_CLIENTS
    &&& 0 <= p.weapon <= 15
    &&& 0 <= p.pm_type <= 8
    &&& is_finite(p.origin.x) && is_finite(p.origin.y) && is_finite(p.origin.z)
    &&& !abs_ge(p.origin.x, F32_MAP_LIMIT) && !abs_ge(p.origin.y, F32_MAP_LIMIT) && !abs_ge(
        p.origin.z,
        F32_MAP_LIMIT,
    )
    &&& -50 <= p.health <= 1000
}

/// The strict filter.
pub open spec fn strict_plausible(p: HeaderProbe) -> bool {
    &&& 0 <= p.num_entities <= MAX_ENTITIES_IN_SNAPSHOT
    &&& common_plausible(p)
    &&& !(vec3_is_zero(p.origin) && vec3_is_zero(p.velocity) && vec3_is_zero(p.viewangles)
        && p.health <= 0)
    &&& !(p.pm_type == PM_NORMAL && (p.health <= 0 || vec3_is_zero(p.origin)))
    &&& p.command_time > 0
}

/// The live filter.
pub open spec fn live_plausible(p: HeaderProbe) -> bool {
    &&& 1 <= p.num_entities <= MAX_ENTITIES_IN_SNAPSHOT
    &&& common_plausible(p)
}

/// Whether filter `f` accepts a header with fields `p`.
pub open spec fn filter_accepts(f: SnapshotFilter, p: HeaderProbe) -> bool {
    match f {
        SnapshotFilter::Strict => strict_plausible(p),
        SnapshotFilter::Live => live_plausible(p),
    }
}

/// A decoded header carries the fields found at the layout's offsets.
pub proof fn lemma_probe_of_decoded(h: SnapshotHeader, b: Seq<u8>, base: int)
    requires
        is_snapshot_header_at(h, b, base),
    ensures
        probe_of(h) == probe_at(b, base),
{
    assert(h.ps.stats@[0] == i32s_at(b, base + 44 + 184, 16)[0]);
}

fn common_check(h: &SnapshotHeader) -> (r: bool)
    ensures
        r == common_plausible(probe_of(*h)),
{
    if h.server_time < 1_000 {
        return false;
    }
    if !(0 <= h.ping && h.ping <= 2_000) {
        return false;
    }
    let ps = &h.ps;
    if !(0 <= ps.client_num && ps.client_num < MAX_CLIENTS as i32) {
        return false;
    }
    if !(0 <= ps.weapon && ps.weapon <= 15) {
        return false;
    }
    if !(0 <= ps.pm_type && ps.pm_type <= 8) {
        return false;
    }
    let o = ps.origin;
    if !f32_is_finite(o.x) || !f32_is_finite(o.y) || !f32_is_finite(o.z) {
        return false;
    }
    if f32_abs_ge(o.x, F32_MAP_LIMIT) || f32_abs_ge(o.y, F32_MAP_LIMIT) || f32_abs_ge(
        o.z,
        F32_MAP_LIMIT,
    ) {
        return false;
    }
    let hp = ps.stats[STAT_HEALTH];
    if !(-50 <= hp && hp <= 1_000) {
        return false;
    }
    true
}

/// Sanity filter for a candidate header, strict enough that an all-zero
/// block does not pass and loose enough that any real in-game frame does.
pub fn looks_like_snapshot(h: &SnapshotHeader) -> (r: bool)
    ensures
        r == strict_plausible(probe_of(*h)),
{
    if !(0 <= h.num_entities && h.num_entities <= MAX_ENTITIES_IN_SNAPSHOT as i32) {
        return false;
    }
    if !common_check(h) {
        return false;
    }
    let ps = &h.ps;
    let hp = ps.stats[STAT_HEALTH];
    let origin_zero = f32_vec3_is_zero(&ps.origin);
    let velocity_zero = f32_vec3_is_zero(&ps.velocity);
    let angles_zero = f32_vec3_is_zero(&ps.viewangles);
    if origin_zero && velocity_zero && angles_zero && hp <= 0 {
        return false;
    }
    if ps.pm_type == PM_NORMAL && (hp <= 0 || origin_zero) {
        return false;
    }
    if ps.command_time <= 0 {
        return false;
    }
    true
}

/// Sanity filter used while polling: at least one entity, and the same
/// field ranges as [`looks_like_snapshot`] without its emptiness checks.
pub fn looks_like_live_snapshot(h: &SnapshotHeader) -> (r: bool)
    ensures
        r == live_plausible(probe_of(*h)),
{
    if !(1 <= h.num_entities && h.num_entities <= 256) {
        return false;
    }
    common_check(h)
}

/// Applies filter `f` to `h`.
pub fn header_passes(f: SnapshotFilter, h: &SnapshotHeader) -> (r: bool)
    ensures
        r == filter_accepts(f, probe_of(*h)),
{
    match f {
        SnapshotFilter::Strict => looks_like_snapshot(h),
        SnapshotFilter::Live => looks_like_live_snapshot(h),
    }
}

/// Addresses of the headers accepted while walking `buf` (read from
/// `cursor`) from offset `off` for as long as the position is below
/// `limit`: a hit skips the 516 bytes of its header, a miss moves on by
/// 4 bytes.
pub open spec fn walk_hits(buf: Seq<u8>, off: int, limit: int, f: SnapshotFilter, cursor: int) -> Seq<
    usize,
>
    decreases buf.len() - off,
{
    if off < 0 || off >= limit || off + SNAPSHOT_HEADER_SIZE > buf.len() {
        Seq::empty()
    } else if filter_accepts(f, probe_at(buf, off)) {
        seq![(cursor + off) as usize] + walk_hits(buf, off + SNAPSHOT_HEADER_SIZE, limit, f, cursor)
    } else {
        walk_hits(buf, off + 4, limit, f, cursor)
    }
}

/// Offset at which the walk of [`walk_hits`] stops.
pub open spec fn walk_end(buf: Seq<u8>, off: int, limit: int, f: SnapshotFilter) -> int
    decreases buf.len() - off,
{
    if off < 0 || off >= limit || off + SNAPSHOT_HEADER_SIZE > buf.len() {
        off
    } else if filter_accepts(f, probe_at(buf, off)) {
        walk_end(buf, off + SNAPSHOT_HEADER_SIZE, limit, f)
    } else {
        walk_end(buf, off + 4, limit, f)
    }
}

/// Every element of `s` is at most every later one.
pub open spec fn nondecreasing(s: Seq<usize>) -> bool {
    forall|i: int, j: int| 0 <= i <= j < s.len() ==> s[i] <= s[j]
}

/// Every element of `s` starts a whole header (516 bytes) before every
/// later one: no two overlap.
pub open spec fn headers_apart(s: Seq<usize>) -> bool {
    forall|i: int, j: int| 0 <= i < j < s.len() ==> s[i] + SNAPSHOT_HEADER_SIZE <= s[j]
}

/// Positions examined in the chunk at `cursor` of the window ending at
/// `end`: those below the next chunk and below `end`.
pub open spec fn chunk_limit(cursor: int, end: int) -> int {
    if end - cursor < SNAPSHOT_SCAN_CHUNK {
        end - cursor
    } else {
        SNAPSHOT_SCAN_CHUNK as int
    }
}

/// The hits of a walk lie between its start and its limit, a header
/// apart, and the walk stops past the last of them.
pub proof fn lemma_walk_hits_bounds(buf: Seq<u8>, off: int, limit: int, f: SnapshotFilter, cursor: int)
    requires
        0 <= off,
        0 <= cursor,
        cursor + limit <= usize::MAX,
    ensures
        headers_apart(walk_hits(buf, off, limit, f, cursor)),
        off <= walk_end(buf, off, limit, f),
        walk_end(buf, off, limit, f) == off || walk_end(buf, off, limit, f) < limit
            + SNAPSHOT_HEADER_SIZE,
        forall|i: int|
            0 <= i < walk_hits(buf, off, limit, f, cursor).len() ==> {
                let h = #[trigger] walk_hits(buf, off, limit, f, cursor)[i];
                &&& cursor + off <= h < cursor + limit
                &&& h + SNAPSHOT_HEADER_SIZE <= cursor + walk_end(buf, off, limit, f)
            },
    decreases buf.len() - off,
{
    if off >= limit || off + SNAPSHOT_HEADER_SIZE > buf.len() {
    } else if filter_accepts(f, probe_at(buf, off)) {
        lemma_walk_hits_bounds(buf, off + SNAPSHOT_HEADER_SIZE, limit, f, cursor);
        let rest = walk_hits(buf, off + SNAPSHOT_HEADER_SIZE, limit, f, cursor);
        let all = walk_hits(buf, off, limit, f, cursor);
        assert(all == seq![(cursor + off) as usize] + rest);
        assert forall|i: int| 0 <= i < all.len() implies {
            let h = #[trigger] all[i];
            &&& cursor + off <= h < cursor + limit
            &&& h + SNAPSHOT_HEADER_SIZE <= cursor + walk_end(buf, off, limit, f)
        } by {
            if i > 0 {
                assert(all[i] == rest[i - 1]);
            }
        }
        assert forall|i: int, j: int| 0 <= i < j < all.len() implies all[i] + SNAPSHOT_HEADER_SIZE
            <= all[j] by {
            assert(all[j] == rest[j - 1]);
            if i > 0 {
                assert(all[i] == rest[i - 1]);
            }
        }
    } else {
        lemma_walk_hits_bounds(buf, off + 4, limit, f, cursor);
    }
}

/// Walks `buf`, read from address `cursor`, from offset `from` while the
/// position is below `limit`, and returns the addresses of the headers
/// that filter `f` accepts and the offset where the walk stopped.
pub fn scan_snapshot_chunk(
    buf: &[u8],
    from: usize,
    limit: usize,
    cursor: usize,
    f: SnapshotFilter,
) -> (r: (Vec<usize>, usize))
    requires
        cursor + limit <= usize::MAX,
        limit <= buf@.len(),
        buf@.len() <= usize::MAX - SNAPSHOT_HEADER_SIZE,
    ensures
        r.0@ == walk_hits(buf@, from as int, limit as int, f, cursor as int),
        r.1 == walk_end(buf@, from as int, limit as int, f),
{
    let n = buf.len();
    let mut hits: Vec<usize> = Vec::new();
    let mut off: usize = from;
    while off < limit && n - off >= SNAPSHOT_HEADER_SIZE
        invariant
            n == buf@.len(),
            limit <= n,
            n <= usize::MAX - SNAPSHOT_HEADER_SIZE,
            cursor + limit <= usize::MAX,
            hits@ + walk_hits(buf@, off as int, limit as int, f, cursor as int) == walk_hits(
                buf@,
                from as int,
                limit as int,
                f,
                cursor as int,
            ),
            walk_end(buf@, off as int, limit as int, f) == walk_end(
                buf@,
                from as int,
                limit as int,
                f,
            ),
        decreases n - off,
    {
        let header = SnapshotHeader::read_from(buf, off);
        proof {
            lemma_probe_of_decoded(header, buf@, off as int);
        }
        if header_passes(f, &header) {
            let ghost rest = walk_hits(
                buf@,
                off + SNAPSHOT_HEADER_SIZE,
                limit as int,
                f,
                cursor as int,
            );
            assert(hits@.push((cursor + off) as usize) + rest =~= hits@ + (seq![
                (cursor + off) as usize,
            ] + rest));
            hits.push(cursor + off);
            off += SNAPSHOT_HEADER_SIZE;
        } else {
            off += 4;
        }
    }
    assert(hits@ + walk_hits(buf@, off as int, limit as int, f, cursor as int) =~= hits@);
    (hits, off)
}

/// Walk over a heap window in search of snapshot headers. The caller
/// reads [`SNAPSHOT_READ_LEN`] bytes at [`SnapshotScan::next_read`] and
/// hands them (or the failed read) to [`SnapshotScan::feed`] until
/// `next_read` returns `None`. The positions examined form one walk over
/// `[start, end)` in steps of 4 bytes, skipping the 516 bytes of every
/// header found, so that no header is reported twice or overlaps another.
#[derive(Debug, Clone)]
pub struct SnapshotScan {
    /// Start of the window.
    pub start: usize,
    /// Address of the next chunk.
    pub cursor: usize,
    /// End of the window (exclusive).
    pub end: usize,
    /// Filter applied to every candidate.
    pub filter: SnapshotFilter,
    /// Addresses accepted so far.
    pub hits: Vec<usize>,
    /// Next position of the walk (past the last header found).
    pub resume: usize,
}

impl SnapshotScan {
    /// Hits lie in the window, a header apart, and the walk resumes past
    /// the last of them, at or after the cursor and less than a header
    /// beyond it.
    pub open spec fn wf(&self) -> bool {
        &&& self.start <= self.cursor <= self.resume
        &&& self.resume < self.cursor + SNAPSHOT_HEADER_SIZE
        &&& headers_apart(self.hits@)
        &&& forall|i: int|
            0 <= i < self.hits@.len() ==> self.start <= #[trigger] self.hits@[i] < self.end
        &&& self.hits@.len() > 0 ==> self.hits@.last() + SNAPSHOT_HEADER_SIZE <= self.resume
    }

    /// A walk over `[start, end)` with filter `filter`.
    pub fn new(start: usize, end: usize, filter: SnapshotFilter) -> (r: SnapshotScan)
        ensures
            r.start == start,
            r.cursor == start,
            r.resume == start,
            r.end == end,
            r.filter == filter,
            r.hits@ == Seq::<usize>::empty(),
            r.wf(),
    {
        SnapshotScan { start, cursor: start, end, filter, hits: Vec::new(), resume: start }
    }

    /// Address of the next read, or `None` once the window is done.
    pub fn next_read(&self) -> (r: Option<usize>)
        ensures
            r == (if self.cursor < self.end {
                Some(self.cursor)
            } else {
                None::<usize>
            }),
    {
        if self.cursor < self.end {
            Some(self.cursor)
        } else {
            None
        }
    }

    /// Hands over the [`SNAPSHOT_READ_LEN`] bytes read at the cursor, or
    /// `None` if that read failed. The walk goes on through the chunk from
    /// where it stopped, over the positions below the next chunk and the
    /// window's end; an unreadable chunk is skipped. The cursor moves one
    /// chunk forward.
    pub fn feed(&mut self, chunk: Option<&[u8]>)
        requires
            old(self).wf(),
            old(self).cursor < old(self).end,
            chunk matches Some(c) ==> c@.len() == SNAPSHOT_READ_LEN && old(self).cursor
                + SNAPSHOT_READ_LEN <= usize::MAX,
        ensures
            final(self).wf(),
            final(self).start == old(self).start,
            final(self).end == old(self).end,
            final(self).filter == old(self).filter,
            final(self).cursor == old(self).cursor.saturating_add(SNAPSHOT_SCAN_CHUNK),
            match chunk {
                Some(c) => {
                    let from = old(self).resume - old(self).cursor;
                    let limit = chunk_limit(old(self).cursor as int, old(self).end as int);
                    let stop = old(self).cursor + walk_end(c@, from, limit, old(self).filter);
                    &&& final(self).hits@ == old(self).hits@ + walk_hits(
                        c@,
                        from,
                        limit,
                        old(self).filter,
                        old(self).cursor as int,
                    )
                    &&& final(self).resume == (if stop > final(self).cursor {
                        stop
                    } else {
                        final(self).cursor as int
                    })
                },
                None => {
                    &&& final(self).hits@ == old(self).hits@
                    &&& final(self).resume == (if old(self).resume > final(self).cursor {
                        old(self).resume
                    } else {
                        final(self).cursor
                    })
                },
            },
    {
        let ghost old_hits = self.hits@;
        let ghost old_cursor = self.cursor;
        match chunk {
            Some(c) => {
                let from = self.resume - self.cursor;
                let limit = if self.end - self.cursor < SNAPSHOT_SCAN_CHUNK {
                    self.end - self.cursor
                } else {
                    SNAPSHOT_SCAN_CHUNK
                };
                let (found, stop_off) = scan_snapshot_chunk(c, from, limit, self.cursor, self.filter);
                proof {
                    lemma_walk_hits_bounds(
                        c@,
                        from as int,
                        limit as int,
                        self.filter,
                        self.cursor as int,
                    );
                }
                let mut k: usize = 0;
                while k < found.len()
                    invariant
                        k <= found@.len(),
                        self.hits@ == old_hits + found@.subrange(0, k as int),
                        self.cursor == old_cursor,
                        self.start == old(self).start,
                        self.end == old(self).end,
                        self.filter == old(self).filter,
                        self.resume == old(self).resume,
                    decreases found@.len() - k,
                {
                    self.hits.push(found[k]);
                    assert(old_hits + found@.subrange(0, k + 1) =~= (old_hits + found@.subrange(
                        0,
                        k as int,
                    )).push(found@[k as int]));
                    k += 1;
                }
                assert(found@.subrange(0, found@.len() as int) =~= found@);
                let ghost all = self.hits@;
                assert forall|i: int, j: int| 0 <= i < j < all.len() implies all[i]
                    + SNAPSHOT_HEADER_SIZE <= all[j] by {
                    if j >= old_hits.len() && i < old_hits.len() {
                        assert(all[i] == old_hits[i]);
                        assert(old_hits[i] <= old_hits.last());
                        assert(all[j] == found@[j - old_hits.len()]);
                    } else if i >= old_hits.len() {
                        assert(all[i] == found@[i - old_hits.len()]);
                        assert(all[j] == found@[j - old_hits.len()]);
                    } else {
                        assert(all[i] == old_hits[i]);
                        assert(all[j] == old_hits[j]);
                    }
                }
                assert forall|i: int| 0 <= i < all.len() implies self.start <= #[trigger] all[i]
                    < self.end by {
                    if i >= old_hits.len() {
                        assert(all[i] == found@[i - old_hits.len()]);
                    } else {
                        assert(all[i] == old_hits[i]);
                    }
                }
                let stop = self.cursor + stop_off;
                self.cursor = self.cursor + SNAPSHOT_SCAN_CHUNK;
                self.resume = if stop > self.cursor {
                    stop
                } else {
                    self.cursor
                };
                proof {
                    if all.len() > 0 {
                        if found@.len() > 0 {
                            assert(all.last() == found@[found@.len() - 1]);
                        } else {
                            assert(all.last() == old_hits.last());
                        }
                    }
                }
            },
            None => {
                self.cursor = self.cursor.saturating_add(SNAPSHOT_SCAN_CHUNK);
                if self.resume < self.cursor {
                    self.resume = self.cursor;
                }
            },
        }
    }
}

/// Hits `k` and `k + 1` lie exactly one `snapshot_t` apart.
pub open spec fn is_pair_at(hits: Seq<usize>, k: int) -> bool {
    0 <= k && k + 1 < hits.len() && hits[k + 1] - hits[k] == SNAPSHOT_SIZE
}

/// Finds the first two consecutive hits that sit exactly `sizeof(snapshot_t)`
/// apart: the `cg.activeSnapshots[0..2]` pair.
pub fn find_snapshot_pair(hits: &[usize]) -> (r: Option<(usize, usize)>)
    requires
        nondecreasing(hits@),
    ensures
        match r {
            Some((a, b)) => exists|k: int|
                #[trigger] is_pair_at(hits@, k) && a == hits@[k] && b == hits@[k + 1] && forall|
                    j: int,
                | 0 <= j < k ==> !#[trigger] is_pair_at(hits@, j),
            None => forall|k: int| !#[trigger] is_pair_at(hits@, k),
        },
{
    let n = hits.len();
    if n < 2 {
        return None;
    }
    let mut k: usize = 0;
    while k < n - 1
        invariant
            n == hits@.len(),
            n >= 2,
            nondecreasing(hits@),
            forall|j: int| 0 <= j < k ==> !#[trigger] is_pair_at(hits@, j),
        decreases n - k,
    {
        assert(hits@[k as int] <= hits@[k + 1]);
        if hits[k + 1] - hits[k] == SNAPSHOT_SIZE {
            assert(is_pair_at(hits@, k as int));
            return Some((hits[k], hits[k + 1]));
        }
        k += 1;
    }
    None
}

/// Addresses worth polling: the confirmed pair, or else the first
/// candidate alone, or nothing when there are no candidates.
pub fn locate_snapshot_addrs(hits: &[usize]) -> (r: Vec<usize>)
    requires
        nondecreasing(hits@),
    ensures
        hits@.len() == 0 ==> r@.len() == 0,
        (exists|k: int| #[trigger] is_pair_at(hits@, k)) ==> exists|k: int|
            #[trigger] is_pair_at(hits@, k) && r@ == seq![hits@[k], hits@[k + 1]] && forall|j: int|
                0 <= j < k ==> !#[trigger] is_pair_at(hits@, j),
        hits@.len() > 0 && (forall|k: int| !#[trigger] is_pair_at(hits@, k)) ==> r@ == seq![
            hits@[0],
        ],
{
    if hits.len() == 0 {
        return Vec::new();
    }
    match find_snapshot_pair(hits) {
        Some((a, b)) => {
            let mut v = Vec::new();
            v.push(a);
            v.push(b);
            assert(v@ =~= seq![a, b]);
            v
        },
        None => {
            let mut v = Vec::new();
            v.push(hits[0]);
            assert(v@ =~= seq![hits@[0]]);
            v
        },
    }
}

/// `serverTime` of a header that could be read, or `i32::MIN` otherwise.
pub open spec fn time_key(t: Option<i32>) -> i32 {
    match t {
        Some(v) => v,
        None => i32::MIN,
    }
}

/// Of the pair `a` / `b`, the one with the larger `serverTime` (`a` on a
/// tie); an unreadable header counts as the oldest possible.
pub fn pick_newer(a: usize, ta: Option<i32>, b: usize, tb: Option<i32>) -> (r: usize)
    ensures
        r == (if time_key(ta) >= time_key(tb) {
            a
        } else {
            b
        }),
{
    let ka = match ta {
        Some(v) => v,
        None => i32::MIN,
    };
    let kb = match tb {
        Some(v) => v,
        None => i32::MIN,
    };
    if ka >= kb {
        a
    } else {
        b
    }
}

/// Of the cached addresses, the last one whose `serverTime` is largest
/// (`times[i]` belongs to `addrs[i]`; `None` is an unreadable header).
pub fn newest_address(addrs: &[usize], times: &[Option<i32>]) -> (r: Option<usize>)
    requires
        addrs@.len() == times@.len(),
    ensures
        addrs@.len() == 0 <==> r is None,
        r matches Some(x) ==> exists|i: int|
            0 <= i < addrs@.len() && x == addrs@[i] && (forall|j: int|
                0 <= j < addrs@.len() ==> time_key(#[trigger] times@[j]) <= time_key(times@[i]))
                && (forall|j: int|
                i < j < addrs@.len() ==> time_key(#[trigger] times@[j]) < time_key(times@[i])),
{
    let n = addrs.len();
    if n == 0 {
        return None;
    }
    let mut best: usize = 0;
    let mut best_key = match times[0] {
        Some(v) => v,
        None => i32::MIN,
    };
    let mut i: usize = 1;
    while i < n
        invariant
            n == addrs@.len(),
            n == times@.len(),
            1 <= i <= n,
            best < i,
            best_key == time_key(times@[best as int]),
            forall|j: int| 0 <= j < i ==> time_key(#[trigger] times@[j]) <= best_key,
            forall|j: int| best < j < i ==> time_key(#[trigger] times@[j]) < best_key,
        decreases n - i,
    {
        let k = match times[i] {
            Some(v) => v,
            None => i32::MIN,
        };
        if k >= best_key {
            best = i;
            best_key = k;
        }
        i += 1;
    }
    Some(addrs[best])
}

/// Milliseconds for which `server_time` may stay the same before the
/// cached snapshot counts as frozen: a server in an active match ticks
/// far more often.
pub const STALL_LIMIT_MS: u64 = 3000;

/// When the `server_time` of the cached snapshot last changed.
#[derive(Debug, Clone, Copy, PartialEq, Eq, Structural)]
pub struct StallWatch {
    /// Last `server_time` seen (`i32::MIN` before the first one).
    pub last_server_time: i32,
    /// Clock reading, in milliseconds, when it last changed.
    pub last_change_ms: u64,
}

impl StallWatch {
    /// Nothing seen yet; the clock reads `now_ms`.
    pub fn new(now_ms: u64) -> (r: StallWatch)
        ensures
            r.last_server_time == i32::MIN,
            r.last_change_ms == now_ms,
    {
        StallWatch { last_server_time: i32::MIN, last_change_ms: now_ms }
    }

    /// Records the `server_time` read at clock reading `now_ms` and returns
    /// for how many milliseconds it has not changed (0 when it just did; a
    /// clock reading earlier than the last change counts as 0).
    pub fn observe(&mut self, server_time: i32, now_ms: u64) -> (stalled_ms: u64)
        ensures
            server_time != old(self).last_server_time ==> {
                &&& final(self).last_server_time == server_time
                &&& final(self).last_change_ms == now_ms
                &&& stalled_ms == 0
            },
            server_time == old(self).last_server_time ==> {
                &&& *final(self) == *old(self)
                &&& stalled_ms == now_ms.saturating_sub(old(self).last_change_ms)
            },
    {
        if server_time != self.last_server_time {
            self.last_server_time = server_time;
            self.last_change_ms = now_ms;
            0
        } else {
            now_ms.saturating_sub(self.last_change_ms)
        }
    }
}

/// A polling loop rescans the heap only on a real symptom: its cached
/// addresses no longer hold a plausible snapshot, or the snapshot's
/// `server_time` has been frozen for more than [`STALL_LIMIT_MS`] (not in
/// a match yet, or a block that only looked like a snapshot). It never
/// rescans on a timer while the match runs.
pub fn needs_rescan(cache_ok: bool, stalled_ms: u64) -> (r: bool)
    ensures
        r == (!cache_ok || stalled_ms > STALL_LIMIT_MS),
{
    !cache_ok || stalled_ms > STALL_LIMIT_MS
}

/// What a polling loop does with its cache after a rescan.
#[derive(Debug, Clone, Copy, PartialEq, Eq, Structural)]
pub enum CacheAction {
    /// Keep the cached addresses.
    Keep,
    /// Replace them with the fresh ones.
    Replace,
    /// Drop them, wait a tick and scan again.
    Retry,
}

/// Decision after a rescan that found `fresh`: nothing found keeps a cache
/// that still reads as valid (its snapshot was only frozen) and otherwise
/// drops it; a different result
/// replaces the cache; the same result keeps it.
pub fn after_rescan(cache_ok: bool, cached: &[usize], fresh: &[usize]) -> (r: CacheAction)
    ensures
        r == (if fresh@.len() == 0 {
            if cache_ok {
                CacheAction::Keep
            } else {
                CacheAction::Retry
            }
        } else if fresh@ == cached@ {
            CacheAction::Keep
        } else {
            CacheAction::Replace
        }),
{
    if fresh.len() == 0 {
        return if cache_ok {
            CacheAction::Keep
        } else {
            CacheAction::Retry
        };
    }
    if fresh.len() != cached.len() {
        return CacheAction::Replace;
    }
    let mut i: usize = 0;
    while i < fresh.len()
        invariant
            i <= fresh@.len(),
            fresh@.len() == cached@.len(),
            forall|k: int| 0 <= k < i ==> fresh@[k] == cached@[k],
        decreases fresh@.len() - i,
    {
        if fresh[i] != cached[i] {
            return CacheAction::Replace;
        }
        i += 1;
    }
    assert(fresh@ =~= cached@);
    CacheAction::Keep
}

} // verus!
