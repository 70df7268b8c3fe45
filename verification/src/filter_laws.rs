//! What the sanity filters and the entity decoder accept, stated on the raw
//! fields and bytes: the dead flag is one bit, coordinates are compared by
//! magnitude (their sign never matters), and fields sit at the engine's
//! offsets.

use vstd::prelude::*;
use crate::entity::{
    enemies_of, entity_fields_plausible, is_living_enemy, live_player_fields,
};
use crate::floatbits::magnitude;
use crate::layout::{entity_state_at, EntityState, ENTITY_STATE_SIZE};
use crate::locate::{strict_plausible, HeaderProbe};

verus! {

/// The pattern of a float with its sign bit masked off.
pub open spec fn unsigned_bits(bits: u32) -> u32 {
    bits & 0x7fff_ffff
}

/// The unsigned value of the four bytes `b[off..off + 4]`, least
/// significant first.
pub open spec fn le_bytes(b: Seq<u8>, off: int) -> int {
    b[off] + 256 * b[off + 1] + 65536 * b[off + 2] + 16777216 * b[off + 3]
}

proof fn lemma_magnitude_masks(bits: u32)
    ensures
        magnitude(bits) == unsigned_bits(bits),
{
    if bits >= 0x8000_0000 {
        assert(bits >= 0x8000_0000u32 ==> (bits - 0x8000_0000u32) as u32 == bits & 0x7fff_ffffu32)
            by (bit_vector);
    } else {
        assert(bits < 0x8000_0000u32 ==> bits == bits & 0x7fff_ffffu32) by (bit_vector);
    }
}

proof fn lemma_low_bit(x: i32)
    ensures
        (x & 1) == 0 <==> (x as u32) % 2 == 0,
{
    assert((x & 1i32) == 0i32 <==> (x as u32) % 2u32 == 0u32) by (bit_vector);
}

/// A player other than the local one is a living enemy exactly when the
/// lowest bit of its flags (EF_DEAD) is clear, whatever its other flags
/// (firing, talking, ...).
pub proof fn law_only_the_dead_bit_drops_an_enemy(e: EntityState, own_client: i32)
    requires
        e.e_type == 1,
        e.client_num != own_client,
    ensures
        is_living_enemy(e, own_client) <==> (e.e_flags as u32) % 2 == 0,
{
    lemma_low_bit(e.e_flags);
}

/// The enemies tracked from a list of slots are exactly its players other
/// than the local one whose dead bit is clear.
pub proof fn law_tracked_enemies_by_flags(s: Seq<EntityState>, own_client: i32, j: int)
    requires
        0 <= j < s.len(),
    ensures
        enemies_of(s, own_client).contains(s[j]) <==> (s[j].e_type == 1 && s[j].client_num
            != own_client && (s[j].e_flags as u32) % 2 == 0),
    decreases s.len(),
{
    lemma_low_bit(s[j].e_flags);
    lemma_enemies_members(s, own_client);
}

proof fn lemma_enemies_members(s: Seq<EntityState>, own_client: i32)
    ensures
        forall|x: EntityState|
            #[trigger] enemies_of(s, own_client).contains(x) <==> (s.contains(x) && is_living_enemy(
                x,
                own_client,
            )),
    decreases s.len(),
{
    if s.len() > 0 {
        let pre = s.drop_last();
        lemma_enemies_members(pre, own_client);
        let ep = enemies_of(pre, own_client);
        let es = enemies_of(s, own_client);
        assert forall|x: EntityState| #[trigger] es.contains(x) <==> (s.contains(x)
            && is_living_enemy(x, own_client)) by {
            if es.contains(x) {
                let i = choose|i: int| 0 <= i < es.len() && es[i] == x;
                if is_living_enemy(s.last(), own_client) && i == es.len() - 1 {
                    assert(s[s.len() - 1] == x);
                } else {
                    assert(ep[i] == x);
                    assert(ep.contains(x));
                    let t = choose|t: int| 0 <= t < pre.len() && pre[t] == x;
                    assert(s[t] == x);
                }
            }
            if s.contains(x) && is_living_enemy(x, own_client) {
                let t = choose|t: int| 0 <= t < s.len() && s[t] == x;
                if t == s.len() - 1 {
                    assert(es[es.len() - 1] == x);
                } else {
                    assert(pre[t] == x);
                    assert(ep.contains(x));
                    let i = choose|i: int| 0 <= i < ep.len() && ep[i] == x;
                    if is_living_enemy(s.last(), own_client) {
                        assert(es[i] == x);
                    } else {
                        assert(es == ep);
                    }
                }
            }
        }
    }
}

/// The strict snapshot filter asks for positive health only of a normally
/// moving player: a frame of a dead or spectating player (any movement
/// type but 0) with in-range fields, a non-zero in-map origin and a
/// positive command time passes, whatever its health in `-50..=1000`.
pub proof fn law_strict_filter_accepts_a_dead_player(p: HeaderProbe)
    requires
        0 <= p.num_entities <= 256,
        p.server_time >= 1000,
        0 <= p.ping <= 2000,
        0 <= p.client_num < 64,
        0 <= p.weapon <= 15,
        1 <= p.pm_type <= 8,
        unsigned_bits(p.origin.x) < 0x4700_0000,
        unsigned_bits(p.origin.y) < 0x4700_0000,
        unsigned_bits(p.origin.z) < 0x4700_0000,
        unsigned_bits(p.origin.x) != 0,
        -50 <= p.health <= 1000,
        p.command_time > 0,
    ensures
        strict_plausible(p),
{
    lemma_magnitude_masks(p.origin.x);
    lemma_magnitude_masks(p.origin.y);
    lemma_magnitude_masks(p.origin.z);
}

/// A normally moving player passes the strict filter only with positive
/// health.
pub proof fn law_strict_filter_normal_player_alive(p: HeaderProbe)
    requires
        strict_plausible(p),
        p.pm_type == 0,
    ensures
        p.health > 0,
{
}

/// The live-player filter on raw patterns: a player in a player slot with a
/// known weapon, whose origin has x and y at least 1 and every component
/// below 32768 in magnitude, the sign of each component playing no part.
pub proof fn law_live_player_by_magnitude(es: EntityState)
    ensures
        live_player_fields(es) <==> {
            &&& es.e_type == 1
            &&& 0 <= es.number < 64
            &&& 0 <= es.client_num < 64
            &&& 0 <= es.weapon <= 9
            &&& unsigned_bits(es.origin.x) >= 0x3f80_0000
            &&& unsigned_bits(es.origin.y) >= 0x3f80_0000
            &&& unsigned_bits(es.origin.x) < 0x4700_0000
            &&& unsigned_bits(es.origin.y) < 0x4700_0000
            &&& unsigned_bits(es.origin.z) < 0x4700_0000
        },
{
    lemma_magnitude_masks(es.origin.x);
    lemma_magnitude_masks(es.origin.y);
    lemma_magnitude_masks(es.origin.z);
}

/// The entity scan filter on raw patterns: known kind, slot, client, motion
/// type and weapon, every origin component below 32768 in magnitude and
/// every trajectory-base component finite, the sign of each component
/// playing no part.
pub proof fn law_entity_filter_by_magnitude(es: EntityState)
    ensures
        entity_fields_plausible(es) <==> {
            &&& 0 <= es.e_type <= 12
            &&& 0 <= es.number < 1024
            &&& -1 <= es.client_num < 64
            &&& 0 <= es.pos.tr_type <= 5
            &&& unsigned_bits(es.origin.x) < 0x4700_0000
            &&& unsigned_bits(es.origin.y) < 0x4700_0000
            &&& unsigned_bits(es.origin.z) < 0x4700_0000
            &&& unsigned_bits(es.pos.tr_base.x) < 0x7f80_0000
            &&& unsigned_bits(es.pos.tr_base.y) < 0x7f80_0000
            &&& unsigned_bits(es.pos.tr_base.z) < 0x7f80_0000
            &&& 0 <= es.weapon <= 15
        },
{
    lemma_magnitude_masks(es.origin.x);
    lemma_magnitude_masks(es.origin.y);
    lemma_magnitude_masks(es.origin.z);
    lemma_magnitude_masks(es.pos.tr_base.x);
    lemma_magnitude_masks(es.pos.tr_base.y);
    lemma_magnitude_masks(es.pos.tr_base.z);
}

proof fn lemma_i32_bytes(b: Seq<u8>, off: int, v: i32)
    requires
        0 <= off,
        off + 4 <= b.len(),
        v == (le_bytes(b, off) as u32) as i32,
    ensures
        (v as u32) as int == le_bytes(b, off),
{
    let w = le_bytes(b, off) as u32;
    assert(0 <= le_bytes(b, off) < 0x1_0000_0000);
    assert(w as int == le_bytes(b, off));
    assert(((w as i32) as u32) == w) by (bit_vector);
}

/// The decoder takes each integer field of an `entityState_t` from the four
/// little-endian bytes at its offset: `number` at 0, `e_type` at 4,
/// `e_flags` at 8, `pos.tr_type` at 12, `client_num` at 168, `weapon` at
/// 192.
pub proof fn law_entity_integer_offsets(b: Seq<u8>, base: int)
    requires
        0 <= base,
        base + ENTITY_STATE_SIZE <= b.len(),
    ensures
        (entity_state_at(b, base).number as u32) as int == le_bytes(b, base),
        (entity_state_at(b, base).e_type as u32) as int == le_bytes(b, base + 4),
        (entity_state_at(b, base).e_flags as u32) as int == le_bytes(b, base + 8),
        (entity_state_at(b, base).pos.tr_type as u32) as int == le_bytes(b, base + 12),
        (entity_state_at(b, base).client_num as u32) as int == le_bytes(b, base + 168),
        (entity_state_at(b, base).weapon as u32) as int == le_bytes(b, base + 192),
{
    let e = entity_state_at(b, base);
    lemma_i32_bytes(b, base, e.number);
    lemma_i32_bytes(b, base + 4, e.e_type);
    lemma_i32_bytes(b, base + 8, e.e_flags);
    lemma_i32_bytes(b, base + 12, e.pos.tr_type);
    lemma_i32_bytes(b, base + 168, e.client_num);
    lemma_i32_bytes(b, base + 192, e.weapon);
}

} // verus!
