//! Properties that relate several functions of the library, or hold of
//! every input of one, stated over the specifications the functions'
//! own contracts use.

use vstd::prelude::*;
use crate::config::vkey_value;
use crate::entity::{count_type, enemies_of, is_living_enemy, players_of};
use crate::layout::{
    entity_state_at, i32_le, u32_le, vec3_at, EntityState, EntityType, ENTITY_ORIGIN_OFFSET,
    ENTITY_STATE_SIZE,
};
use crate::locate::{
    filter_accepts, live_plausible, probe_at, strict_plausible, HeaderProbe,
    SnapshotFilter,
};
use crate::menu::{
    hex_char, hex_upper, hex_upper_min2, is_named_vk, spec_row_down, spec_row_up, spec_vk_name,
};
use crate::numparse::{
    digit_value, fold_digits, has_radix_prefix, parse_unsigned, strip_radix_prefix,
    IntErrorKind,
};
use crate::scan::{dedup_spec, Hit};
use crate::stride::{
    constant_gap, eligible, gap, is_earliest_longest, lemma_run_end,
    lemma_run_end_unique, no_descent, qualifies, run_end, run_from, stride_report_of,
    StrideMatch, StrideReport, REPORT_MAX_STRIDE, REPORT_MIN_RUN,
};
use crate::track::has_client;
use crate::util::hex_value;
use vstd::string::StringSliceAdditionalSpecFns;
use vstd::utf8::{encode_utf8, is_ascii_chars, is_ascii_chars_encode_utf8};

verus! {

/// Decoding an `entityState_t` reads only its own 208 bytes: two buffers
/// that agree there decode to the same entity.
pub proof fn law_entity_decode_is_local(b1: Seq<u8>, b2: Seq<u8>, base1: int, base2: int)
    requires
        0 <= base1,
        0 <= base2,
        base1 + ENTITY_STATE_SIZE <= b1.len(),
        base2 + ENTITY_STATE_SIZE <= b2.len(),
        b1.subrange(base1, base1 + ENTITY_STATE_SIZE) == b2.subrange(
            base2,
            base2 + ENTITY_STATE_SIZE,
        ),
    ensures
        entity_state_at(b1, base1) == entity_state_at(b2, base2),
{
    lemma_entity_subrange(b1, base1);
    lemma_entity_subrange(b2, base2);
}

proof fn lemma_entity_subrange(b: Seq<u8>, base: int)
    requires
        0 <= base,
        base + ENTITY_STATE_SIZE <= b.len(),
    ensures
        entity_state_at(b, base) == entity_state_at(
            b.subrange(base, base + ENTITY_STATE_SIZE),
            0,
        ),
{
    let sub = b.subrange(base, base + ENTITY_STATE_SIZE);
    assert forall|c: int| 0 <= c <= ENTITY_STATE_SIZE - 4 implies #[trigger] u32_le(sub, c)
        == u32_le(b, base + c) by {
        assert(sub[c] == b[base + c]);
        assert(sub[c + 1] == b[base + c + 1]);
        assert(sub[c + 2] == b[base + c + 2]);
        assert(sub[c + 3] == b[base + c + 3]);
    }
}

/// The entity layout puts `origin` 92 bytes into the struct, so the
/// inspector's `origin` mode (which reads from 92 bytes earlier) decodes
/// the three floats found at the given address as the origin.
pub proof fn law_origin_offset(b: Seq<u8>, base: int)
    ensures
        entity_state_at(b, base).origin == vec3_at(b, base + ENTITY_ORIGIN_OFFSET),
        entity_state_at(b, base).client_num == i32_le(b, base + 168),
        entity_state_at(b, base).number == i32_le(b, base),
        entity_state_at(b, base).e_type == i32_le(b, base + 4),
{
}

/// An all-zero block never passes either snapshot filter.
pub proof fn law_zero_block_rejected(b: Seq<u8>, base: int, f: SnapshotFilter)
    requires
        0 <= base,
        base + 516 <= b.len(),
        forall|k: int| base <= k < base + 516 ==> #[trigger] b[k] == 0u8,
    ensures
        !filter_accepts(f, probe_at(b, base)),
{
    assert(b[base + 8] == 0u8);
    assert(b[base + 9] == 0u8);
    assert(b[base + 10] == 0u8);
    assert(b[base + 11] == 0u8);
    assert(i32_le(b, base + 8) == 0);
}

/// The strict filter is the live filter's range checks plus emptiness
/// checks, except that it also admits a frame without entities.
pub proof fn law_strict_within_live(p: HeaderProbe)
    requires
        strict_plausible(p),
        p.num_entities >= 1,
    ensures
        live_plausible(p),
{
}

/// After deduplication no kept hit starts within `size` bytes after the
/// previous kept one.
pub proof fn law_dedup_spacing<T>(s: Seq<Hit<T>>, size: int)
    ensures
        forall|i: int|
            0 <= i < dedup_spec(s, size).len() - 1 ==> (#[trigger] dedup_spec(s, size)[i]).address
                + size <= dedup_spec(s, size)[i + 1].address,
    decreases s.len(),
{
    if s.len() > 0 {
        law_dedup_spacing(s.drop_last(), size);
        let d = dedup_spec(s.drop_last(), size);
        let all = dedup_spec(s, size);
        if !(d.len() > 0 && s.last().address < d.last().address + size) {
            assert(all == d.push(s.last()));
            assert forall|i: int| 0 <= i < all.len() - 1 implies (#[trigger] all[i]).address
                + size <= all[i + 1].address by {
                if i < d.len() - 1 {
                    assert(all[i] == d[i]);
                    assert(all[i + 1] == d[i + 1]);
                } else {
                    assert(all[i] == d.last());
                    assert(all[i + 1] == s.last());
                }
            }
        }
    }
}

/// Moving the selection up and then down (or down and then up) returns
/// to the same row.
pub proof fn law_menu_up_down_inverse(sel: usize, len: usize)
    requires
        sel < len,
    ensures
        spec_row_down(spec_row_up(sel, len), len) == sel,
        spec_row_up(spec_row_down(sel, len), len) == sel,
        spec_row_up(sel, len) < len,
        spec_row_down(sel, len) < len,
{
    if sel == 0 {
        assert(((len - 1 + 1) as int) % (len as int) == 0) by (nonlinear_arith)
            requires
                len >= 1,
        ;
    } else {
        assert(((sel - 1 + 1) as int) % (len as int) == sel) by (nonlinear_arith)
            requires
                0 < sel < len,
        ;
    }
    if sel + 1 < len {
        assert(((sel + 1) as int) % (len as int) == sel + 1) by (nonlinear_arith)
            requires
                sel + 1 < len,
        ;
    } else {
        assert(((sel + 1) as int) % (len as int) == 0) by (nonlinear_arith)
            requires
                sel + 1 == len,
        ;
    }
}

/// The number of players listed for a frame is the number the per-kind
/// census counts as `PLAYER`.
pub proof fn law_players_match_census(s: Seq<EntityState>)
    ensures
        players_of(s).len() == count_type(s, EntityType::PLAYER),
        forall|i: int|
            0 <= i < players_of(s).len() ==> (#[trigger] players_of(s)[i]).e_type
                == EntityType::PLAYER,
    decreases s.len(),
{
    if s.len() > 0 {
        law_players_match_census(s.drop_last());
    }
}

/// Every tracked enemy is a living player other than the local one.
pub proof fn law_enemies_are_living_others(s: Seq<EntityState>, own_client: i32)
    ensures
        forall|i: int|
            0 <= i < enemies_of(s, own_client).len() ==> is_living_enemy(
                #[trigger] enemies_of(s, own_client)[i],
                own_client,
            ),
        enemies_of(s, own_client).len() <= players_of(s).len(),
    decreases s.len(),
{
    if s.len() > 0 {
        law_enemies_are_living_others(s.drop_last(), own_client);
    }
}

/// A slot is followed after a refresh of the tracks exactly when some
/// visible slot holds a living player other than the local one there: the
/// local player and dead players are never followed, and a player gone
/// from the snapshot is dropped.
pub proof fn law_tracked_are_living_enemies(s: Seq<EntityState>, own_client: i32, c: i32)
    ensures
        has_client(enemies_of(s, own_client), c) <==> exists|j: int|
            0 <= j < s.len() && is_living_enemy(#[trigger] s[j], own_client) && s[j].client_num
                == c,
    decreases s.len(),
{
    if s.len() > 0 {
        let pre = s.drop_last();
        law_tracked_are_living_enemies(pre, own_client, c);
        let ep = enemies_of(pre, own_client);
        let es = enemies_of(s, own_client);
        if has_client(es, c) {
            let j = choose|j: int| 0 <= j < es.len() && #[trigger] es[j].client_num == c;
            if j < ep.len() {
                assert(es[j] == ep[j]);
                assert(has_client(ep, c));
                let t = choose|t: int|
                    0 <= t < pre.len() && is_living_enemy(#[trigger] pre[t], own_client)
                        && pre[t].client_num == c;
                assert(s[t] == pre[t]);
            } else {
                assert(es[j] == s.last());
                assert(s[s.len() - 1] == s.last());
            }
        }
        if exists|j: int|
            0 <= j < s.len() && is_living_enemy(#[trigger] s[j], own_client) && s[j].client_num
                == c {
            let j = choose|j: int|
                0 <= j < s.len() && is_living_enemy(#[trigger] s[j], own_client) && s[j].client_num
                    == c;
            if j < s.len() - 1 {
                assert(pre[j] == s[j]);
                assert(has_client(ep, c));
                let t = choose|t: int| 0 <= t < ep.len() && #[trigger] ep[t].client_num == c;
                if is_living_enemy(s.last(), own_client) {
                    assert(es[t] == ep[t]);
                } else {
                    assert(es == ep);
                }
            } else {
                assert(s[j] == s.last());
                assert(es.last() == s.last());
                assert(es[es.len() - 1].client_num == c);
            }
        }
    }
}

/// The bytes of an ASCII character sequence.
pub open spec fn ascii_bytes(cs: Seq<char>) -> Seq<u8> {
    Seq::new(cs.len(), |i: int| cs[i] as u8)
}

proof fn lemma_hex_char(d: nat)
    requires
        d < 16,
    ensures
        hex_char(d) as u32 == (if d < 10 {
            48 + d
        } else {
            55 + d
        }),
        digit_value(hex_char(d) as u8, 16) == Some(d),
        '\0' <= hex_char(d) <= '\u{7f}',
        hex_char(d) as u8 != 43u8,
        hex_char(d) as u8 != 45u8,
{
    if d < 10 {
        assert((48 + d) as char as u32 == 48 + d);
    } else {
        assert((55 + d) as char as u32 == 55 + d);
    }
}

proof fn lemma_fold_push(ds: Seq<u8>, c: u8, radix: nat)
    ensures
        fold_digits(ds.push(c), radix) == match fold_digits(ds, radix) {
            Err(e) => Err(e),
            Ok(v) => match digit_value(c, radix) {
                None => Err(IntErrorKind::InvalidDigit),
                Some(d) => if v * radix + d > usize::MAX {
                    Err(IntErrorKind::PosOverflow)
                } else {
                    Ok((v * radix + d) as usize)
                },
            },
        },
{
    assert(ds.push(c).drop_last() =~= ds);
}

proof fn lemma_hex_upper_ascii(v: nat)
    requires
        v <= usize::MAX,
    ensures
        is_ascii_chars(hex_upper(v)),
        hex_upper(v).len() >= 1,
        fold_digits(ascii_bytes(hex_upper(v)), 16) == Ok::<usize, IntErrorKind>(v as usize),
        ascii_bytes(hex_upper(v))[0] != 43u8,
        ascii_bytes(hex_upper(v))[0] != 45u8,
        forall|i: int|
            0 <= i < hex_upper(v).len() ==> digit_value(
                #[trigger] ascii_bytes(hex_upper(v))[i],
                16,
            ) is Some,
    decreases v,
{
    if v < 16 {
        lemma_hex_char(v);
        let b = ascii_bytes(hex_upper(v));
        assert(b =~= Seq::<u8>::empty().push(hex_char(v) as u8));
        lemma_fold_push(Seq::<u8>::empty(), hex_char(v) as u8, 16);
    } else {
        lemma_hex_upper_ascii(v / 16);
        lemma_hex_char(v % 16);
        let h = hex_upper(v);
        let b = ascii_bytes(h);
        assert(b =~= ascii_bytes(hex_upper(v / 16)).push(hex_char(v % 16) as u8));
        lemma_fold_push(ascii_bytes(hex_upper(v / 16)), hex_char(v % 16) as u8, 16);
        assert(b[0] == ascii_bytes(hex_upper(v / 16))[0]);
        assert(is_ascii_chars(h)) by {
            assert forall|i: int| 0 <= i < h.len() implies '\0' <= #[trigger] h[i] <= '\u{7f}' by {
                if i < h.len() - 1 {
                    assert(h[i] == hex_upper(v / 16)[i]);
                }
            }
        }
        assert((v / 16) * 16 + v % 16 == v);
        assert forall|i: int| 0 <= i < h.len() implies digit_value(#[trigger] b[i], 16) is Some by {
            if i < h.len() - 1 {
                assert(b[i] == ascii_bytes(hex_upper(v / 16))[i]);
            }
        }
    }
}

proof fn lemma_encode_ascii(cs: Seq<char>)
    requires
        is_ascii_chars(cs),
    ensures
        encode_utf8(cs) == ascii_bytes(cs),
{
    is_ascii_chars_encode_utf8(cs);
    assert(encode_utf8(cs) =~= ascii_bytes(cs));
}

/// The `0x..` name of a virtual-key code without a name of its own reads
/// back as the same code, both as a hexadecimal address and as a
/// configured key.
pub proof fn law_vk_name_parses_back(vk: usize)
    requires
        !is_named_vk(vk),
    ensures
        parse_unsigned(strip_radix_prefix(encode_utf8(spec_vk_name(vk))), 16)
            == Ok::<usize, IntErrorKind>(vk),
        has_radix_prefix(encode_utf8(spec_vk_name(vk))),
{
    reveal_strlit("0x");
    let digits = hex_upper_min2(vk as nat);
    lemma_hex_upper_ascii(vk as nat);
    lemma_hex_char(vk as nat % 16);
    assert(is_ascii_chars(digits) && fold_digits(ascii_bytes(digits), 16) == Ok::<
        usize,
        IntErrorKind,
    >(vk) && ascii_bytes(digits)[0] != 43u8 && digits.len() >= 1) by {
        if vk < 16 {
            assert(hex_upper(vk as nat) =~= seq![hex_char(vk as nat)]);
            let b = ascii_bytes(digits);
            assert('0' as u8 == 48u8);
            assert(b =~= Seq::<u8>::empty().push(48u8).push(hex_char(vk as nat) as u8));
            lemma_fold_push(Seq::<u8>::empty(), 48u8, 16);
            lemma_fold_push(Seq::<u8>::empty().push(48u8), hex_char(vk as nat) as u8, 16);
            assert forall|i: int| 0 <= i < digits.len() implies '\0' <= #[trigger] digits[i]
                <= '\u{7f}' by {
                if i == 0 {
                    assert('\0' <= '0' <= '\u{7f}');
                }
            }
        }
    }
    let name = spec_vk_name(vk);
    assert(name == "0x"@ + digits);
    assert(is_ascii_chars(name)) by {
        assert forall|i: int| 0 <= i < name.len() implies '\0' <= #[trigger] name[i] <= '\u{7f}' by {
            if i >= 2 {
                assert(name[i] == digits[i - 2]);
            } else {
                assert('\0' <= '0' <= '\u{7f}' && '\0' <= 'x' <= '\u{7f}');
            }
        }
    }
    lemma_encode_ascii(name);
    let b = ascii_bytes(name);
    assert(b[0] == 48u8 && b[1] == 120u8) by {
        assert('0' as u8 == 48u8 && 'x' as u8 == 120u8);
    }
    assert(b.subrange(2, b.len() as int) =~= ascii_bytes(digits));
}

/// A configured key and an address agree on every string written with a
/// `0x` / `0X` prefix (a plain decimal string is read differently: as
/// decimal for a key, as hexadecimal for an address).
pub proof fn law_vkey_agrees_with_hex_on_prefixed(s: &str)
    requires
        has_radix_prefix(s.spec_bytes()),
    ensures
        vkey_value(s) == hex_value(s),
{
}

/// Lower-case hexadecimal digit for `d < 16`.
pub open spec fn hex_lower_char(d: nat) -> char {
    if d < 10 {
        (48 + d) as char
    } else {
        (87 + d) as char
    }
}

/// Lower-case hexadecimal digits of `v`, without leading zeros, as `{:x}`
/// writes them.
pub open spec fn hex_lower(v: nat) -> Seq<char>
    decreases v,
{
    if v < 16 {
        seq![hex_lower_char(v)]
    } else {
        hex_lower(v / 16).push(hex_lower_char(v % 16))
    }
}

/// Decimal digit for `d < 10`.
pub open spec fn dec_char(d: nat) -> char {
    (48 + d) as char
}

/// Decimal digits of `v`, without leading zeros, as `{}` writes them.
pub open spec fn dec_text(v: nat) -> Seq<char>
    decreases v,
{
    if v < 10 {
        seq![dec_char(v)]
    } else {
        dec_text(v / 10).push(dec_char(v % 10))
    }
}

/// The digits of a number written in `radix` read back as that number:
/// ASCII, at least one, each a digit of the radix.
pub open spec fn reads_back(digits: Seq<char>, radix: nat, v: usize) -> bool {
    &&& is_ascii_chars(digits)
    &&& digits.len() >= 1
    &&& fold_digits(ascii_bytes(digits), radix) == Ok::<usize, IntErrorKind>(v)
    &&& forall|i: int|
        0 <= i < digits.len() ==> digit_value(#[trigger] ascii_bytes(digits)[i], radix) is Some
}

proof fn lemma_reads_back_push(digits: Seq<char>, c: char, radix: nat, v: usize, d: nat)
    requires
        reads_back(digits, radix, v),
        '\0' <= c <= '\u{7f}',
        digit_value(c as u8, radix) == Some(d),
        v * radix + d <= usize::MAX,
    ensures
        reads_back(digits.push(c), radix, (v * radix + d) as usize),
{
    let b = ascii_bytes(digits.push(c));
    assert(b =~= ascii_bytes(digits).push(c as u8));
    lemma_fold_push(ascii_bytes(digits), c as u8, radix);
    let e = digits.push(c);
    assert forall|i: int| 0 <= i < e.len() implies '\0' <= #[trigger] e[i] <= '\u{7f}' by {
        if i < digits.len() {
            assert(e[i] == digits[i]);
        }
    }
    assert forall|i: int| 0 <= i < e.len() implies digit_value(#[trigger] b[i], radix) is Some by {
        if i < digits.len() {
            assert(b[i] == ascii_bytes(digits)[i]);
        }
    }
}

proof fn lemma_reads_back_single(c: char, radix: nat, d: nat)
    requires
        '\0' <= c <= '\u{7f}',
        digit_value(c as u8, radix) == Some(d),
        d <= usize::MAX,
    ensures
        reads_back(seq![c], radix, d as usize),
{
    let b = ascii_bytes(seq![c]);
    assert(b =~= Seq::<u8>::empty().push(c as u8));
    lemma_fold_push(Seq::<u8>::empty(), c as u8, radix);
    assert(b[0] == c as u8);
    assert(0 * radix + d == d);
    assert(fold_digits(b, radix) == Ok::<usize, IntErrorKind>(d as usize));
    assert(forall|i: int| 0 <= i < 1 ==> #[trigger] seq![c][i] == c);
}

proof fn lemma_hex_upper_reads_back(v: nat)
    requires
        v <= usize::MAX,
    ensures
        reads_back(hex_upper(v), 16, v as usize),
{
    lemma_hex_upper_ascii(v);
}

proof fn lemma_hex_lower_reads_back(v: nat)
    requires
        v <= usize::MAX,
    ensures
        reads_back(hex_lower(v), 16, v as usize),
    decreases v,
{
    let d = v % 16;
    if d < 10 {
        assert((48 + d) as char as u32 == 48 + d);
    } else {
        assert((87 + d) as char as u32 == 87 + d);
    }
    if v < 16 {
        lemma_reads_back_single(hex_lower_char(v), 16, v);
    } else {
        lemma_hex_lower_reads_back(v / 16);
        assert((v / 16) * 16 + v % 16 == v);
        lemma_reads_back_push(hex_lower(v / 16), hex_lower_char(d), 16, (v / 16) as usize, d);
    }
}

proof fn lemma_dec_reads_back(v: nat)
    requires
        v <= usize::MAX,
    ensures
        reads_back(dec_text(v), 10, v as usize),
    decreases v,
{
    let d = v % 10;
    assert((48 + d) as char as u32 == 48 + d);
    if v < 10 {
        lemma_reads_back_single(dec_char(v), 10, v);
    } else {
        lemma_dec_reads_back(v / 10);
        assert((v / 10) * 10 + v % 10 == v);
        lemma_reads_back_push(dec_text(v / 10), dec_char(d), 10, (v / 10) as usize, d);
    }
}

/// `s` is `digits`, or `digits` behind a `0x` / `0X` prefix.
pub open spec fn plain_or_prefixed(s: Seq<char>, digits: Seq<char>) -> bool {
    s == digits || s == "0x"@ + digits || s == "0X"@ + digits
}

proof fn lemma_text_parses(s: &str, digits: Seq<char>, radix: nat, v: usize)
    requires
        reads_back(digits, radix, v),
        radix == 10 || radix == 16,
        plain_or_prefixed(s@, digits),
    ensures
        has_radix_prefix(s.spec_bytes()) <==> s@ != digits,
        parse_unsigned(strip_radix_prefix(s.spec_bytes()), radix) == Ok::<usize, IntErrorKind>(v),
{
    reveal_strlit("0x");
    reveal_strlit("0X");
    let db = ascii_bytes(digits);
    assert(is_ascii_chars(s@)) by {
        assert forall|i: int| 0 <= i < s@.len() implies '\0' <= #[trigger] s@[i] <= '\u{7f}' by {
            if s@ != digits {
                if i >= 2 {
                    assert(s@[i] == digits[i - 2]);
                } else {
                    assert('\0' <= '0' <= '\u{7f}' && '\0' <= 'x' <= '\u{7f}' && '\0' <= 'X'
                        <= '\u{7f}');
                }
            }
        }
    }
    lemma_encode_ascii(s@);
    let b = ascii_bytes(s@);
    assert(digit_value(db[0], radix) is Some);
    if s@ == digits {
        assert(b == db);
        if b.len() >= 2 {
            assert(digit_value(db[1], radix) is Some);
        }
        assert(!has_radix_prefix(b));
    } else {
        assert(b[0] == 48u8 && (b[1] == 120u8 || b[1] == 88u8)) by {
            assert('0' as u8 == 48u8 && 'x' as u8 == 120u8 && 'X' as u8 == 88u8);
        }
        assert(b.subrange(2, b.len() as int) =~= db);
    }
}

/// An address printed in hexadecimal, with lower- or upper-case digits
/// (as `{:x}` and `{:X}` write it), with or without a `0x` / `0X` prefix,
/// reads back as the same number.
pub proof fn law_hex_round_trip(s: &str, v: usize)
    requires
        plain_or_prefixed(s@, hex_upper(v as nat)) || plain_or_prefixed(s@, hex_lower(v as nat)),
    ensures
        hex_value(s) == Ok::<usize, IntErrorKind>(v),
{
    if plain_or_prefixed(s@, hex_upper(v as nat)) {
        lemma_hex_upper_reads_back(v as nat);
        lemma_text_parses(s, hex_upper(v as nat), 16, v);
    } else {
        lemma_hex_lower_reads_back(v as nat);
        lemma_text_parses(s, hex_lower(v as nat), 16, v);
    }
}

/// A key code printed in decimal (as `{}` writes it), or in hexadecimal
/// behind a `0x` / `0X` prefix, reads back as the same code.
pub proof fn law_vkey_round_trip(s: &str, v: usize)
    requires
        s@ == dec_text(v as nat) || (s@ != hex_upper(v as nat) && plain_or_prefixed(
            s@,
            hex_upper(v as nat),
        )) || (s@ != hex_lower(v as nat) && plain_or_prefixed(s@, hex_lower(v as nat))),
    ensures
        vkey_value(s) == Ok::<usize, IntErrorKind>(v),
{
    if s@ == dec_text(v as nat) {
        lemma_dec_reads_back(v as nat);
        lemma_text_parses(s, dec_text(v as nat), 10, v);
        assert(strip_radix_prefix(s.spec_bytes()) == s.spec_bytes());
    } else if s@ != hex_upper(v as nat) && plain_or_prefixed(s@, hex_upper(v as nat)) {
        lemma_hex_upper_reads_back(v as nat);
        lemma_text_parses(s, hex_upper(v as nat), 16, v);
    } else {
        lemma_hex_lower_reads_back(v as nat);
        lemma_text_parses(s, hex_lower(v as nat), 16, v);
    }
}

/// A run that the stride report picks is a maximal run: it cannot be
/// extended to the left without a longer run starting there.
proof fn lemma_report_run_qualifies(a: Seq<usize>, k: int, best: int)
    requires
        eligible(a, k),
        run_from(a, k) == best,
        best >= REPORT_MIN_RUN,
        forall|p: int| #[trigger] eligible(a, p) ==> run_from(a, p) <= best,
    ensures
        qualifies(
            a,
            k,
            run_end(a, k, gap(a, k)),
            gap(a, k),
            REPORT_MIN_RUN as int,
            REPORT_MAX_STRIDE as int,
        ),
{
    let s = gap(a, k);
    lemma_run_end(a, k, s);
    if k > 0 && gap(a, k - 1) == s {
        assert(eligible(a, k - 1));
        assert(constant_gap(a, k - 1, run_end(a, k, s), s));
        lemma_run_end_unique(a, k - 1, run_end(a, k, s), s);
        assert(run_from(a, k - 1) == best + 1);
    }
}

/// On sorted hits, the stride report of the entity scanner and
/// `detect_repeating_stride` with a minimum run of three and a largest
/// gap of 8192 bytes agree: the report names a run exactly when the
/// detector finds one, and then it is the same run.
pub proof fn law_report_matches_detect(a: Seq<usize>, r: StrideReport, m: Option<StrideMatch>)
    requires
        no_descent(a),
        stride_report_of(a, r),
        match m {
            Some(x) => no_descent(a) && is_earliest_longest(
                a,
                x,
                REPORT_MIN_RUN as int,
                REPORT_MAX_STRIDE as int,
            ),
            None => !no_descent(a) || forall|i: int, j: int, s: int|
                !#[trigger] qualifies(a, i, j, s, REPORT_MIN_RUN as int, REPORT_MAX_STRIDE as int),
        },
    ensures
        match m {
            Some(x) => r == StrideReport::Detected(x),
            None => !(r is Detected),
        },
{
    let mn = REPORT_MIN_RUN as int;
    let mx = REPORT_MAX_STRIDE as int;
    if let StrideReport::Detected(y) = r {
        let k = y.start_index as int;
        lemma_report_run_qualifies(a, k, y.run_length as int);
        let e = run_end(a, k, gap(a, k));
        assert(qualifies(a, k, e, gap(a, k), mn, mx));
        match m {
            Some(x) => {
                let i = x.start_index as int;
                let j = x.start_index + x.run_length - 1;
                assert(qualifies(a, i, j, x.stride as int, mn, mx));
                assert(gap(a, i) == x.stride);
                lemma_run_end_unique(a, i, j, x.stride as int);
                assert(eligible(a, i));
                assert(run_from(a, i) == x.run_length);
                assert(y.run_length <= x.run_length);
                assert(x.run_length <= y.run_length);
                if k < i {
                    assert(false);
                }
                if i < k {
                    assert(false);
                }
                assert(k == i);
                assert(y == x);
            },
            None => {
                assert(false);
            },
        }
    } else {
        if let Some(x) = m {
            let i = x.start_index as int;
            let j = x.start_index + x.run_length - 1;
            assert(qualifies(a, i, j, x.stride as int, mn, mx));
            assert(gap(a, i) == x.stride);
            lemma_run_end_unique(a, i, j, x.stride as int);
            assert(eligible(a, i));
            assert(run_from(a, i) == x.run_length);
            assert(false);
        }
    }
}

} // verus!
