//! Reading `entityState_t` records: the sanity checks used to recognise
//! one in raw memory, and the per-frame views of a snapshot's entity list.

use vstd::prelude::*;
use crate::floatbits::{
    abs_ge, abs_lt, f32_abs_ge, f32_abs_lt, f32_is_finite, f32_reasonable, f32_reasonable_coord,
    is_finite, reasonable_coord, F32_MAP_LIMIT, F32_ONE,
};
use crate::layout::{
    EntityState, EntityType, ENTITY_ORIGIN_OFFSET, ENTITY_STATE_SIZE, MAX_CLIENTS,
    MAX_ENTITIES_IN_SNAPSHOT, MAX_GENTITIES, VEC3_SIZE,
};

verus! {

/// `eFlags` bit set on dead players (`bg_public.h`).
pub const EF_DEAD: i32 = 1;

/// Short human name of an `e_type` value.
pub open spec fn spec_etype_name(t: i32) -> Seq<char> {
    if t == 0 {
        "GENERAL"@
    } else if t == 1 {
        "PLAYER"@
    } else if t == 2 {
        "ITEM"@
    } else if t == 3 {
        "MISSILE"@
    } else if t == 4 {
        "MOVER"@
    } else if t == 5 {
        "BEAM"@
    } else if t == 6 {
        "PORTAL"@
    } else if t == 7 {
        "SPEAKER"@
    } else if t == 8 {
        "PUSH_TRIGGER"@
    } else if t == 9 {
        "TELEPORT_TRIGGER"@
    } else if t == 10 {
        "INVISIBLE"@
    } else if t == 11 {
        "GRAPPLE"@
    } else if t == 12 {
        "TEAM"@
    } else {
        "???"@
    }
}

/// Translate an `e_type` integer into a short human name (`"???"` for
/// values the engine does not define).
pub fn etype_name(t: i32) -> (r: &'static str)
    ensures
        r@ == spec_etype_name(t),
{
    match t {
        0 => "GENERAL",
        1 => "PLAYER",
        2 => "ITEM",
        3 => "MISSILE",
        4 => "MOVER",
        5 => "BEAM",
        6 => "PORTAL",
        7 => "SPEAKER",
        8 => "PUSH_TRIGGER",
        9 => "TELEPORT_TRIGGER",
        10 => "INVISIBLE",
        11 => "GRAPPLE",
        12 => "TEAM",
        _ => "???",
    }
}

/// Marker printed after a field: empty when it is in range.
pub open spec fn spec_mark(ok: bool) -> Seq<char> {
    if ok {
        ""@
    } else {
        "<-- suspicious"@
    }
}

/// Marker printed after a field: empty when it is in range.
pub fn mark(ok: bool) -> (r: &'static str)
    ensures
        r@ == spec_mark(ok),
{
    if ok {
        ""
    } else {
        "<-- suspicious"
    }
}

/// Range checks printed next to a dumped `entityState_t`.
#[derive(Debug, Clone, Copy, PartialEq, Eq, Structural)]
pub struct EntitySanity {
    /// `number` is an entity slot.
    pub number_ok: bool,
    /// `e_type` is one of the engine's kinds.
    pub etype_ok: bool,
    /// `client_num` is a client slot or -1.
    pub client_ok: bool,
    /// `origin` is finite and inside the map bounds.
    pub origin_ok: bool,
}

impl EntitySanity {
    /// Every check passed.
    pub open spec fn spec_looks_good(self) -> bool {
        self.number_ok && self.etype_ok && self.client_ok && self.origin_ok
    }

    /// Every check passed.
    pub fn looks_good(&self) -> (r: bool)
        ensures
            r == self.spec_looks_good(),
    {
        self.number_ok && self.etype_ok && self.client_ok && self.origin_ok
    }
}

/// The checks that flag an implausible field of a dumped entity.
pub fn entity_sanity(es: &EntityState) -> (r: EntitySanity)
    ensures
        r.number_ok == (0 <= es.number < MAX_GENTITIES),
        r.etype_ok == (0 <= es.e_type <= 12),
        r.client_ok == (-1 <= es.client_num < 64),
        r.origin_ok == reasonable_coord(es.origin),
{
    EntitySanity {
        number_ok: 0 <= es.number && es.number < MAX_GENTITIES as i32,
        etype_ok: 0 <= es.e_type && es.e_type <= 12,
        client_ok: es.client_num >= -1 && es.client_num < 64,
        origin_ok: f32_reasonable_coord(&es.origin),
    }
}

/// How to interpret an address given to the inspector.
#[derive(Debug, Clone, Copy, PartialEq, Eq, Structural)]
pub enum Mode {
    /// Address is the `origin` field of an entity: the struct starts 92 bytes earlier.
    Origin,
    /// Address is the start of an entity.
    Raw,
    /// Address is a `vec3_t`.
    Vec3,
}

/// Address to read and number of bytes, for `address` taken as `mode` says.
pub fn inspect_target(mode: Mode, address: usize) -> (r: (usize, usize))
    ensures
        r == match mode {
            Mode::Origin => (address.wrapping_sub(ENTITY_ORIGIN_OFFSET), ENTITY_STATE_SIZE),
            Mode::Raw => (address, ENTITY_STATE_SIZE),
            Mode::Vec3 => (address, VEC3_SIZE),
        },
{
    match mode {
        Mode::Origin => (address.wrapping_sub(ENTITY_ORIGIN_OFFSET), ENTITY_STATE_SIZE),
        Mode::Raw => (address, ENTITY_STATE_SIZE),
        Mode::Vec3 => (address, VEC3_SIZE),
    }
}

/// The checks of the entity scan that need no float arithmetic: a known
/// kind, slot, client, motion type and weapon, an in-map origin and a
/// finite trajectory base.
pub open spec fn entity_fields_plausible(es: EntityState) -> bool {
    &&& 0 <= es.e_type <= 12
    &&& 0 <= es.number < MAX_GENTITIES
    &&& -1 <= es.client_num < MAX_CLIENTS
    &&& 0 <= es.pos.tr_type <= 5
    &&& reasonable_coord(es.origin)
    &&& is_finite(es.pos.tr_base.x) && is_finite(es.pos.tr_base.y) && is_finite(es.pos.tr_base.z)
    &&& 0 <= es.weapon <= 15
}

/// Integer and bit-pattern part of the entity scan filter; the caller
/// adds the checks on `|origin|²` and on `|tr_base - origin|`.
pub fn entity_fields_plausible_exec(es: &EntityState) -> (r: bool)
    ensures
        r == entity_fields_plausible(*es),
{
    if !(0 <= es.e_type && es.e_type <= 12) {
        return false;
    }
    if !(0 <= es.number && es.number < MAX_GENTITIES as i32) {
        return false;
    }
    if !(-1 <= es.client_num && es.client_num < MAX_CLIENTS as i32) {
        return false;
    }
    if !(0 <= es.pos.tr_type && es.pos.tr_type <= 5) {
        return false;
    }
    if !f32_reasonable(es.origin.x) || !f32_reasonable(es.origin.y) || !f32_reasonable(
        es.origin.z,
    ) {
        return false;
    }
    if !f32_is_finite(es.pos.tr_base.x) || !f32_is_finite(es.pos.tr_base.y) || !f32_is_finite(
        es.pos.tr_base.z,
    ) {
        return false;
    }
    0 <= es.weapon && es.weapon <= 15
}

/// The checks of the live-player scan that need no float arithmetic.
pub open spec fn live_player_fields(es: EntityState) -> bool {
    &&& es.e_type == EntityType::PLAYER
    &&& 0 <= es.number < MAX_CLIENTS
    &&& 0 <= es.client_num < MAX_CLIENTS
    &&& 0 <= es.weapon <= 9
    &&& is_finite(es.origin.x) && is_finite(es.origin.y) && is_finite(es.origin.z)
    &&& !abs_lt(es.origin.x, F32_ONE) && !abs_lt(es.origin.y, F32_ONE)
    &&& !abs_ge(es.origin.x, F32_MAP_LIMIT) && !abs_ge(es.origin.y, F32_MAP_LIMIT) && !abs_ge(
        es.origin.z,
        F32_MAP_LIMIT,
    )
}

/// Integer and bit-pattern part of the live-player filter; the caller
/// adds the check that `tr_base` lies within 256 units of `origin`.
pub fn live_player_fields_exec(es: &EntityState) -> (r: bool)
    ensures
        r == live_player_fields(*es),
{
    if es.e_type != EntityType::PLAYER {
        return false;
    }
    if !(0 <= es.number && es.number < MAX_CLIENTS as i32) {
        return false;
    }
    if !(0 <= es.client_num && es.client_num < MAX_CLIENTS as i32) {
        return false;
    }
    if !(0 <= es.weapon && es.weapon <= 9) {
        return false;
    }
    let o = es.origin;
    if !f32_is_finite(o.x) || !f32_is_finite(o.y) || !f32_is_finite(o.z) {
        return false;
    }
    if f32_abs_lt(o.x, F32_ONE) || f32_abs_lt(o.y, F32_ONE) {
        return false;
    }
    !(f32_abs_ge(o.x, F32_MAP_LIMIT) || f32_abs_ge(o.y, F32_MAP_LIMIT) || f32_abs_ge(
        o.z,
        F32_MAP_LIMIT,
    ))
}

/// Populated slots of a snapshot whose header says `num`: `num` clamped
/// to `0..=256`.
pub open spec fn spec_visible_count(num: i32) -> int {
    if num < 0 {
        0
    } else if num > MAX_ENTITIES_IN_SNAPSHOT {
        MAX_ENTITIES_IN_SNAPSHOT as int
    } else {
        num as int
    }
}

/// Populated slots of a snapshot whose header says `num`.
pub fn visible_count(num: i32) -> (r: usize)
    ensures
        r == spec_visible_count(num),
{
    if num < 0 {
        0
    } else if num > MAX_ENTITIES_IN_SNAPSHOT as i32 {
        MAX_ENTITIES_IN_SNAPSHOT
    } else {
        num as usize
    }
}

/// Number of entities of kind `t` in `s`.
pub open spec fn count_type(s: Seq<EntityState>, t: i32) -> nat
    decreases s.len(),
{
    if s.len() == 0 {
        0
    } else {
        count_type(s.drop_last(), t) + if s.last().e_type == t {
            1nat
        } else {
            0nat
        }
    }
}

/// Number of entities in `s` whose kind the engine does not define.
pub open spec fn count_unknown(s: Seq<EntityState>) -> nat
    decreases s.len(),
{
    if s.len() == 0 {
        0
    } else {
        count_unknown(s.drop_last()) + if 0 <= s.last().e_type <= 12 {
            0nat
        } else {
            1nat
        }
    }
}

/// Number of entities in `s` of a kind the engine defines.
pub open spec fn count_known(s: Seq<EntityState>) -> nat
    decreases s.len(),
{
    if s.len() == 0 {
        0
    } else {
        count_known(s.drop_last()) + if 0 <= s.last().e_type <= 12 {
            1nat
        } else {
            0nat
        }
    }
}

proof fn lemma_count_type_le(s: Seq<EntityState>, t: i32)
    ensures
        count_type(s, t) <= s.len(),
    decreases s.len(),
{
    if s.len() > 0 {
        lemma_count_type_le(s.drop_last(), t);
    }
}

proof fn lemma_count_known_le(s: Seq<EntityState>)
    ensures
        count_known(s) <= s.len(),
    decreases s.len(),
{
    if s.len() > 0 {
        lemma_count_known_le(s.drop_last());
    }
}

/// Every entity is either of a defined kind or of an unknown one.
pub proof fn lemma_known_plus_unknown(s: Seq<EntityState>)
    ensures
        count_known(s) + count_unknown(s) == s.len(),
    decreases s.len(),
{
    if s.len() > 0 {
        lemma_known_plus_unknown(s.drop_last());
    }
}

/// Per-kind census of a snapshot's populated slots.
#[derive(Debug, Clone)]
pub struct EntityBreakdown {
    /// Populated slots considered.
    pub visible: usize,
    /// `by_type[t]`: populated slots whose `e_type` is `t`, for `t` in `0..13`.
    pub by_type: Vec<usize>,
    /// Populated slots of an undefined kind.
    pub other: usize,
}

/// Counts the populated slots of `entities` (the snapshot's 256 slots,
/// `num` from its header) by kind.
pub fn entity_breakdown(entities: &[EntityState], num: i32) -> (r: EntityBreakdown)
    requires
        entities@.len() == MAX_ENTITIES_IN_SNAPSHOT,
    ensures
        r.visible == spec_visible_count(num),
        r.by_type@.len() == 13,
        forall|t: int|
            0 <= t < 13 ==> #[trigger] r.by_type@[t] == count_type(
                entities@.take(r.visible as int),
                t as i32,
            ),
        r.other == count_unknown(entities@.take(r.visible as int)),
{
    let n = visible_count(num);
    let mut by_type: Vec<usize> = Vec::new();
    let mut t: usize = 0;
    while t < 13
        invariant
            t <= 13,
            by_type@.len() == t,
            forall|u: int| 0 <= u < t ==> #[trigger] by_type@[u] == 0,
        decreases 13 - t,
    {
        by_type.push(0);
        t += 1;
    }
    let mut known: usize = 0;
    let mut k: usize = 0;
    assert(entities@.take(0) =~= Seq::<EntityState>::empty());
    while k < n
        invariant
            k <= n <= MAX_ENTITIES_IN_SNAPSHOT,
            entities@.len() == MAX_ENTITIES_IN_SNAPSHOT,
            by_type@.len() == 13,
            forall|u: int|
                0 <= u < 13 ==> #[trigger] by_type@[u] == count_type(
                    entities@.take(k as int),
                    u as i32,
                ),
            known == count_known(entities@.take(k as int)),
            known <= k,
            forall|u: int| 0 <= u < 13 ==> #[trigger] by_type@[u] <= k,
        decreases n - k,
    {
        let ghost pre = entities@.take(k as int);
        let ghost ext = entities@.take(k + 1);
        assert(ext.drop_last() =~= pre);
        let e = entities[k].e_type;
        proof {
            lemma_count_type_le(pre, e);
            lemma_count_known_le(pre);
        }
        if 0 <= e && e <= 12 {
            let idx = e as usize;
            let c = by_type[idx];
            proof {
                assert(by_type@[idx as int] == count_type(pre, idx as i32));
            }
            by_type.set(idx, c + 1);
            known += 1;
        }
        proof {
            assert forall|u: int| 0 <= u < 13 implies #[trigger] by_type@[u] == count_type(
                ext,
                u as i32,
            ) by {}
        }
        k += 1;
    }
    proof {
        lemma_known_plus_unknown(entities@.take(n as int));
    }
    EntityBreakdown { visible: n, by_type, other: n - known }
}

/// The players among `s`, in order.
pub open spec fn players_of(s: Seq<EntityState>) -> Seq<EntityState>
    decreases s.len(),
{
    if s.len() == 0 {
        Seq::empty()
    } else if s.last().e_type == EntityType::PLAYER {
        players_of(s.drop_last()).push(s.last())
    } else {
        players_of(s.drop_last())
    }
}

/// The players among the populated slots (`entities` are the snapshot's
/// 256 slots, `num` comes from its header).
pub fn players_in_view(entities: &[EntityState], num: i32) -> (r: Vec<EntityState>)
    requires
        entities@.len() == MAX_ENTITIES_IN_SNAPSHOT,
    ensures
        r@ == players_of(entities@.take(spec_visible_count(num))),
{
    let n = visible_count(num);
    let mut out: Vec<EntityState> = Vec::new();
    let mut k: usize = 0;
    assert(entities@.take(0) =~= Seq::<EntityState>::empty());
    while k < n
        invariant
            k <= n <= MAX_ENTITIES_IN_SNAPSHOT,
            n == spec_visible_count(num),
            entities@.len() == MAX_ENTITIES_IN_SNAPSHOT,
            out@ == players_of(entities@.take(k as int)),
        decreases n - k,
    {
        let ghost ext = entities@.take(k + 1);
        assert(ext.drop_last() =~= entities@.take(k as int));
        let e = entities[k];
        if e.e_type == EntityType::PLAYER {
            out.push(e);
        }
        k += 1;
    }
    out
}

/// A living player other than the local one (`own_client`).
pub open spec fn is_living_enemy(e: EntityState, own_client: i32) -> bool {
    e.e_type == EntityType::PLAYER && e.client_num != own_client && (e.e_flags & EF_DEAD) == 0
}

/// The living enemies among `s`, in order.
pub open spec fn enemies_of(s: Seq<EntityState>, own_client: i32) -> Seq<EntityState>
    decreases s.len(),
{
    if s.len() == 0 {
        Seq::empty()
    } else if is_living_enemy(s.last(), own_client) {
        enemies_of(s.drop_last(), own_client).push(s.last())
    } else {
        enemies_of(s.drop_last(), own_client)
    }
}

/// The living players other than the local one among the first `num`
/// slots (at most 256), as the aim and overlay loops track them.
pub fn living_enemies(entities: &[EntityState], num: i32, own_client: i32) -> (r: Vec<
    EntityState,
>)
    requires
        entities@.len() == MAX_ENTITIES_IN_SNAPSHOT,
        num >= 0,
    ensures
        r@ == enemies_of(entities@.take(spec_visible_count(num)), own_client),
{
    let n = visible_count(num);
    let mut out: Vec<EntityState> = Vec::new();
    let mut k: usize = 0;
    assert(entities@.take(0) =~= Seq::<EntityState>::empty());
    while k < n
        invariant
            k <= n <= MAX_ENTITIES_IN_SNAPSHOT,
            n == spec_visible_count(num),
            entities@.len() == MAX_ENTITIES_IN_SNAPSHOT,
            out@ == enemies_of(entities@.take(k as int), own_client),
        decreases n - k,
    {
        let ghost ext = entities@.take(k + 1);
        assert(ext.drop_last() =~= entities@.take(k as int));
        let e = entities[k];
        if e.e_type == EntityType::PLAYER && e.client_num != own_client && (e.e_flags & EF_DEAD)
            == 0 {
            out.push(e);
        }
        k += 1;
    }
    out
}

} // verus!
