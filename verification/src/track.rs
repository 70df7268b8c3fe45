//! The enemies an aim or overlay loop follows between snapshots: one entry
//! per client slot, refreshed from every new snapshot. A slot is followed
//! exactly while it holds a living enemy in view: the local player and
//! dead players are never followed, and a player gone from the snapshot
//! is dropped.

use vstd::prelude::*;
use crate::entity::{enemies_of, living_enemies, spec_visible_count};
use crate::layout::{EntityState, MAX_ENTITIES_IN_SNAPSHOT};

verus! {

/// Some enemy of `es` sits in client slot `c`.
pub open spec fn has_client(es: Seq<EntityState>, c: i32) -> bool {
    exists|j: int| 0 <= j < es.len() && #[trigger] es[j].client_num == c
}

/// The value kept for slot `c` in `entries`, if any.
pub open spec fn lookup<T>(entries: Seq<(i32, T)>, c: i32) -> Option<T> {
    if exists|i: int| 0 <= i < entries.len() && #[trigger] entries[i].0 == c {
        Some(entries[choose|i: int| 0 <= i < entries.len() && #[trigger] entries[i].0 == c].1)
    } else {
        None
    }
}

/// Index of the last enemy of `es` in slot `c` before position `k`, or -1.
pub open spec fn last_before(es: Seq<EntityState>, c: i32, k: int) -> int
    decreases k,
{
    if k <= 0 {
        -1
    } else if es[k - 1].client_num == c {
        k - 1
    } else {
        last_before(es, c, k - 1)
    }
}

/// The value handed to the callback with the `j`-th enemy of `es`, `vals`
/// being the values made so far: the one made for the same slot earlier in
/// the refresh, or else the one the slot held before it (`old`).
pub open spec fn prev_value<T>(
    old: Seq<(i32, T)>,
    es: Seq<EntityState>,
    vals: Seq<T>,
    j: int,
) -> Option<T> {
    let k = last_before(es, es[j].client_num, j);
    if k >= 0 {
        Some(vals[k])
    } else {
        lookup(old, es[j].client_num)
    }
}

/// `vals[j]` is what `make` returned for the `j`-th enemy of `es`, handed
/// the value its slot held at that point.
pub open spec fn made_in_turn<T, F: Fn(EntityState, Option<T>) -> T>(
    old: Seq<(i32, T)>,
    es: Seq<EntityState>,
    vals: Seq<T>,
    make: F,
) -> bool {
    &&& vals.len() == es.len()
    &&& forall|j: int|
        0 <= j < es.len() ==> call_ensures(make, (es[j], prev_value(old, es, vals, j)), #[trigger] vals[j])
}

/// `new` is `old` refreshed from the enemies `es` in turn: the values made
/// in turn, and each kept slot holding the value made for its last enemy.
pub open spec fn refreshed<T, F: Fn(EntityState, Option<T>) -> T>(
    old: Seq<(i32, T)>,
    new: Seq<(i32, T)>,
    es: Seq<EntityState>,
    make: F,
) -> bool {
    exists|vals: Seq<T>|
        #[trigger] made_in_turn(old, es, vals, make) && forall|i: int|
            0 <= i < new.len() ==> #[trigger] new[i].1 == vals[last_before(es, new[i].0, es.len() as int)]
}

/// The last enemy before `k` in slot `c` is one, and none comes after it.
pub proof fn lemma_last_before(es: Seq<EntityState>, c: i32, k: int)
    requires
        0 <= k <= es.len(),
    ensures
        -1 <= last_before(es, c, k) < k,
        last_before(es, c, k) >= 0 ==> es[last_before(es, c, k)].client_num == c,
        last_before(es, c, k) < 0 <==> forall|t: int| 0 <= t < k ==> #[trigger] es[t].client_num != c,
    decreases k,
{
    if k > 0 {
        lemma_last_before(es, c, k - 1);
    }
}

/// The followed enemies, each with what the caller keeps for it.
#[derive(Debug, Clone)]
pub struct Tracks<T> {
    /// Client slot and tracked value of each followed enemy.
    pub entries: Vec<(i32, T)>,
}

impl<T: Copy> Tracks<T> {
    /// No slot is followed twice.
    pub open spec fn wf(&self) -> bool {
        forall|i: int, j: int|
            0 <= i < j < self.entries@.len() ==> self.entries@[i].0 != self.entries@[j].0
    }

    /// Slot `c` is followed.
    pub open spec fn follows(&self, c: i32) -> bool {
        exists|i: int| 0 <= i < self.entries@.len() && #[trigger] self.entries@[i].0 == c
    }

    /// Nothing followed yet.
    pub fn new() -> (r: Tracks<T>)
        ensures
            r.wf(),
            r.entries@.len() == 0,
    {
        Tracks { entries: Vec::new() }
    }

    /// The value kept for slot `c`, if it is followed.
    pub fn get(&self, c: i32) -> (r: Option<T>)
        requires
            self.wf(),
        ensures
            match r {
                Some(v) => exists|i: int|
                    0 <= i < self.entries@.len() && #[trigger] self.entries@[i] == (c, v),
                None => !self.follows(c),
            },
    {
        match self.find(c) {
            Some(i) => Some(self.entries[i].1),
            None => None,
        }
    }

    fn find(&self, c: i32) -> (r: Option<usize>)
        ensures
            match r {
                Some(i) => i < self.entries@.len() && self.entries@[i as int].0 == c,
                None => !self.follows(c),
            },
    {
        let mut i: usize = 0;
        while i < self.entries.len()
            invariant
                i <= self.entries@.len(),
                forall|m: int| 0 <= m < i ==> #[trigger] self.entries@[m].0 != c,
            decreases self.entries@.len() - i,
        {
            if self.entries[i].0 == c {
                return Some(i);
            }
            i += 1;
        }
        None
    }

    /// Refreshes the tracks from a new snapshot (`entities` are its 256
    /// slots, `num` its entity count, `own_client` the local player): each
    /// living enemy in view, in slot order, gets the value `make` computes
    /// from it and from the value kept for its slot so far (the one made for
    /// an earlier enemy in the same slot, or else the one from before the
    /// refresh); then every slot with no living enemy in view is dropped.
    pub fn update<F: Fn(EntityState, Option<T>) -> T>(
        &mut self,
        entities: &[EntityState],
        num: i32,
        own_client: i32,
        make: F,
    )
        requires
            old(self).wf(),
            entities@.len() == MAX_ENTITIES_IN_SNAPSHOT,
            num >= 0,
            forall|e: EntityState, p: Option<T>| #[trigger] make.requires((e, p)),
        ensures
            final(self).wf(),
            ({
                let es = enemies_of(entities@.take(spec_visible_count(num)), own_client);
                &&& forall|c: i32| #[trigger] final(self).follows(c) <==> has_client(es, c)
                &&& refreshed(old(self).entries@, final(self).entries@, es, make)
            }),
    {
        let es = living_enemies(entities, num, own_client);
        let ghost e = es@;
        let ghost old_e = self.entries@;
        let ghost mut vals: Seq<T> = Seq::empty();
        let mut k: usize = 0;
        while k < es.len()
            invariant
                e == es@,
                k <= e.len(),
                self.wf(),
                forall|i: int, j: int| 0 <= i < j < old_e.len() ==> old_e[i].0 != old_e[j].0,
                forall|e2: EntityState, p: Option<T>| #[trigger] make.requires((e2, p)),
                forall|j: int| 0 <= j < k ==> self.follows(#[trigger] e[j].client_num),
                vals.len() == k,
                forall|j: int|
                    0 <= j < k ==> call_ensures(
                        make,
                        (e[j], prev_value(old_e, e, vals, j)),
                        #[trigger] vals[j],
                    ),
                forall|i: int|
                    0 <= i < self.entries@.len() && last_before(e, self.entries@[i].0, k as int)
                        >= 0 ==> #[trigger] self.entries@[i].1 == vals[last_before(
                        e,
                        self.entries@[i].0,
                        k as int,
                    )],
                forall|i: int|
                    0 <= i < self.entries@.len() && last_before(e, self.entries@[i].0, k as int) < 0
                        ==> exists|m: int| 0 <= m < old_e.len() && old_e[m] == #[trigger] self.entries@[i],
                forall|m: int|
                    0 <= m < old_e.len() && last_before(e, old_e[m].0, k as int) < 0 ==> exists|
                        i: int,
                    | 0 <= i < self.entries@.len() && self.entries@[i] == #[trigger] old_e[m],
            decreases e.len() - k,
        {
            let en = es[k];
            let c = en.client_num;
            let idx = self.find(c);
            let prev = match idx {
                Some(i) => Some(self.entries[i].1),
                None => None,
            };
            proof {
                lemma_last_before(e, c, k as int);
                let lb = last_before(e, c, k as int);
                assert(e[k as int] == en);
                if lb >= 0 {
                    assert(self.follows(e[lb].client_num));
                    let i = idx.unwrap();
                    assert(self.entries@[i as int].1 == vals[last_before(e, self.entries@[i as int].0, k as int)]);
                } else {
                    match idx {
                        Some(i) => {
                            let ent = self.entries@[i as int];
                            let m = choose|m: int| 0 <= m < old_e.len() && old_e[m] == #[trigger] self.entries@[i as int];
                            assert(old_e[m].0 == c);
                            let m2 = choose|m2: int| 0 <= m2 < old_e.len() && #[trigger] old_e[m2].0 == c;
                            assert(m2 == m);
                            assert(lookup(old_e, c) == Some(ent.1));
                        },
                        None => {
                            if exists|m: int| 0 <= m < old_e.len() && #[trigger] old_e[m].0 == c {
                                let m = choose|m: int| 0 <= m < old_e.len() && #[trigger] old_e[m].0 == c;
                                let i = choose|i: int| 0 <= i < self.entries@.len() && self.entries@[i] == #[trigger] old_e[m];
                                assert(self.entries@[i].0 == c);
                                assert(false);
                            }
                        },
                    }
                }
                assert(prev == prev_value(old_e, e, vals, k as int));
            }
            let v = make(en, prev);
            let ghost before = self.entries@;
            let ghost vals0 = vals;
            proof {
                vals = vals.push(v);
                assert forall|j: int| 0 <= j < k + 1 implies prev_value(old_e, e, vals, j)
                    == prev_value(old_e, e, vals0, j) by {
                    lemma_last_before(e, e[j].client_num, j);
                }
            }
            match idx {
                Some(i) => {
                    self.entries.set(i, (c, v));
                },
                None => {
                    self.entries.push((c, v));
                },
            }
            proof {
                assert forall|j: int| 0 <= j < k + 1 implies self.follows(#[trigger] e[j].client_num) by {
                    if j < k {
                        let m = choose|m: int| 0 <= m < before.len() && #[trigger] before[m].0 == e[j].client_num;
                        assert(self.entries@[m].0 == e[j].client_num);
                    } else {
                        match idx {
                            Some(i) => assert(self.entries@[i as int].0 == c),
                            None => assert(self.entries@[before.len() as int].0 == c),
                        }
                    }
                }
                assert forall|j: int| 0 <= j < k + 1 implies call_ensures(
                    make,
                    (e[j], prev_value(old_e, e, vals, j)),
                    #[trigger] vals[j],
                ) by {
                    if j < k {
                        assert(vals[j] == vals0[j]);
                    }
                }
                assert forall|i: int| 0 <= i < self.entries@.len() implies {
                    let d = #[trigger] self.entries@[i].0;
                    &&& last_before(e, d, k + 1) >= 0 ==> self.entries@[i].1 == vals[last_before(e, d, k + 1)]
                    &&& last_before(e, d, k + 1) < 0 ==> exists|m: int| 0 <= m < old_e.len() && old_e[m] == #[trigger] self.entries@[i]
                } by {
                    let d = self.entries@[i].0;
                    if d == c {
                        assert(last_before(e, d, k + 1) == k);
                        if idx is Some {
                            assert(i == idx.unwrap());
                        } else {
                            assert(i == before.len());
                        }
                    } else {
                        assert(last_before(e, d, k + 1) == last_before(e, d, k as int));
                        assert(self.entries@[i] == before[i]);
                        lemma_last_before(e, d, k as int);
                        if last_before(e, d, k as int) >= 0 {
                            assert(vals[last_before(e, d, k as int)] == vals0[last_before(e, d, k as int)]);
                        }
                    }
                }
                assert forall|m: int| 0 <= m < old_e.len() && last_before(e, old_e[m].0, k + 1) < 0 implies exists|i: int|
                    0 <= i < self.entries@.len() && self.entries@[i] == #[trigger] old_e[m] by {
                    assert(old_e[m].0 != c);
                    assert(last_before(e, old_e[m].0, k + 1) == last_before(e, old_e[m].0, k as int));
                    let i = choose|i: int| 0 <= i < before.len() && before[i] == #[trigger] old_e[m];
                    assert(self.entries@[i] == before[i]);
                }
            }
            k += 1;
        }
        // Drop the slots with no living enemy in view.
        let ghost n = e.len() as int;
        let mut out: Vec<(i32, T)> = Vec::new();
        let mut i: usize = 0;
        while i < self.entries.len()
            invariant
                e == es@,
                n == e.len(),
                self.wf(),
                i <= self.entries@.len(),
                forall|j: int| 0 <= j < e.len() ==> self.follows(#[trigger] e[j].client_num),
                forall|m: int|
                    0 <= m < self.entries@.len() && last_before(e, self.entries@[m].0, n) >= 0
                        ==> #[trigger] self.entries@[m].1 == vals[last_before(e, self.entries@[m].0, n)],
                forall|a: int|
                    #![trigger out@[a]]
                    0 <= a < out@.len() ==> exists|m: int|
                        0 <= m < i && #[trigger] self.entries@[m] == out@[a],
                forall|a: int| 0 <= a < out@.len() ==> has_client(e, #[trigger] out@[a].0),
                forall|a: int, b: int| 0 <= a < b < out@.len() ==> out@[a].0 != out@[b].0,
                forall|m: int|
                    0 <= m < i && has_client(e, #[trigger] self.entries@[m].0) ==> exists|a: int|
                        0 <= a < out@.len() && out@[a].0 == self.entries@[m].0,
            decreases self.entries@.len() - i,
        {
            let c = self.entries[i].0;
            let mut j: usize = 0;
            let mut keep = false;
            while j < es.len()
                invariant
                    e == es@,
                    j <= e.len(),
                    keep <==> exists|t: int| 0 <= t < j && #[trigger] e[t].client_num == c,
                decreases e.len() - j,
            {
                if es[j].client_num == c {
                    keep = true;
                }
                j += 1;
            }
            let ghost old_out = out@;
            if keep {
                assert forall|a: int| 0 <= a < old_out.len() implies old_out[a].0 != c by {
                    let m = choose|m: int| 0 <= m < i && #[trigger] self.entries@[m] == old_out[a];
                    assert(self.entries@[m].0 != self.entries@[i as int].0);
                }
                out.push(self.entries[i]);
                assert(out@[old_out.len() as int] == self.entries@[i as int]);
            }
            assert forall|a: int| #![trigger out@[a]] 0 <= a < out@.len() implies exists|m: int|
                0 <= m < i + 1 && #[trigger] self.entries@[m] == out@[a] by {
                if a < old_out.len() {
                    assert(out@[a] == old_out[a]);
                    let m = choose|m: int| 0 <= m < i && #[trigger] self.entries@[m] == old_out[a];
                    assert(self.entries@[m] == out@[a]);
                } else {
                    assert(self.entries@[i as int] == out@[a]);
                }
            }
            assert forall|m: int|
                0 <= m < i + 1 && has_client(e, #[trigger] self.entries@[m].0) implies exists|
                a: int,
            | 0 <= a < out@.len() && out@[a].0 == self.entries@[m].0 by {
                if m < i {
                    let a = choose|a: int| 0 <= a < old_out.len() && old_out[a].0 == self.entries@[m].0;
                    assert(out@[a] == old_out[a]);
                } else {
                    let t = choose|t: int| 0 <= t < e.len() && #[trigger] e[t].client_num == c;
                    assert(keep);
                    assert(out@[old_out.len() as int].0 == c);
                }
            }
            i += 1;
        }
        let ghost kept = self.entries@;
        proof {
            assert forall|a: int| 0 <= a < out@.len() implies #[trigger] out@[a].1 == vals[last_before(
                e,
                out@[a].0,
                n,
            )] by {
                let m = choose|m: int| 0 <= m < kept.len() && #[trigger] kept[m] == out@[a];
                let t = choose|t: int| 0 <= t < e.len() && #[trigger] e[t].client_num == out@[a].0;
                lemma_last_before(e, out@[a].0, n);
                assert(e[t].client_num == out@[a].0);
            }
            assert(made_in_turn(old_e, e, vals, make));
        }
        self.entries = out;
        assert forall|c: i32| #[trigger] self.follows(c) <==> has_client(e, c) by {
            if has_client(e, c) {
                let j = choose|j: int| 0 <= j < e.len() && #[trigger] e[j].client_num == c;
                assert(exists|m: int| 0 <= m < kept.len() && #[trigger] kept[m].0 == e[j].client_num);
                let m = choose|m: int| 0 <= m < kept.len() && #[trigger] kept[m].0 == e[j].client_num;
                assert(has_client(e, kept[m].0));
                let a = choose|a: int| 0 <= a < self.entries@.len() && self.entries@[a].0 == kept[m].0;
                assert(self.entries@[a].0 == c);
            }
            if self.follows(c) {
                let a = choose|a: int| 0 <= a < self.entries@.len() && #[trigger] self.entries@[a].0 == c;
                assert(has_client(e, self.entries@[a].0));
            }
        }
    }
}

} // verus!
