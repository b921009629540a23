//! The byte codec that carries actions and events between server and
//! clients: a self-delimiting record format, with the round trip proved —
//! decoding an encoded value always gives the value back.

use vstd::prelude::*;
use crate::actions::{GameActionType, GameActionTypeModel};
use crate::city::{CityId, ProducingItemId, ProducingItemIdModel};
use crate::civilization::CivilizationId;
use crate::events::{GameEventType, GameEventTypeModel};
use crate::map_position::{MapUnit, TilePosition};
use crate::player::PlayerId;
use crate::session::{LobbyInfo, LobbyInfoModel, MapDressing, MapDressingModel, MessageToClient, MessageToClientModel};
use crate::tech::TechId;
use crate::unit::{AbilitySet, UnitId, UnitTemplate, UnitTemplateId, UnitTemplateModel, UnitType};
use crate::yields::YieldValue;
use vstd::utf8::{decode_utf8, encode_utf8, valid_utf8};

verus! {

/// A prefix of a byte string that equals one encoding splits into it
/// and what follows.
proof fn lemma_split(s: Seq<u8>, i: int, a: Seq<u8>, b: Seq<u8>)
    requires
        0 <= i,
        i + a.len() + b.len() <= s.len(),
        s.subrange(i, i + a.len() + b.len()) == a + b,
    ensures
        s.subrange(i, i + a.len()) =~= a,
        s.subrange(i + a.len(), i + a.len() + b.len()) =~= b,
{
    assert forall|j: int| 0 <= j < a.len() implies s.subrange(i, i + a.len())[j] == a[j] by {
        assert((a + b)[j] == s.subrange(i, i + a.len() + b.len())[j]);
    }
    assert forall|j: int|
        0 <= j < b.len() implies s.subrange(i + a.len(), i + a.len() + b.len())[j] == b[j] by {
        assert((a + b)[a.len() + j] == b[j]);
        assert(s.subrange(i, i + a.len() + b.len())[a.len() + j] == s[i + a.len() + j]);
        assert(s.subrange(i + a.len(), i + a.len() + b.len())[j] == s[i + a.len() + j]);
    }
}

// ----- bytes -----
pub open spec fn spec_ser_u8(v: u8) -> Seq<u8> {
    seq![v]
}

pub open spec fn spec_parse_u8(s: Seq<u8>, i: int) -> Option<(u8, int)> {
    if 0 <= i < s.len() {
        Some((s[i], i + 1))
    } else {
        None
    }
}

fn ser_u8(out: &mut Vec<u8>, v: u8)
    ensures
        final(out)@ == old(out)@ + spec_ser_u8(v),
{
    out.push(v);
    proof {
        assert(out@ =~= old(out)@ + spec_ser_u8(v));
    }
}

fn parse_u8(s: &Vec<u8>, i: usize) -> (r: Option<(u8, usize)>)
    ensures
        match r {
            Some((v, j)) => spec_parse_u8(s@, i as int) == Some((v, j as int)),
            None => spec_parse_u8(s@, i as int) is None,
        },
{
    if i < s.len() {
        Some((s[i], i + 1))
    } else {
        None
    }
}

proof fn lemma_rt_u8(v: u8, s: Seq<u8>, i: int)
    requires
        0 <= i,
        i + 1 <= s.len(),
        s.subrange(i, i + 1) == spec_ser_u8(v),
    ensures
        spec_parse_u8(s, i) == Some((v, i + 1)),
{
    assert(s[i] == s.subrange(i, i + 1)[0]);
}

// ----- sixteen-bit numbers, big endian -----
pub open spec fn spec_ser_u16(v: u16) -> Seq<u8> {
    seq![(v / 256) as u8, (v % 256) as u8]
}

pub open spec fn spec_parse_u16(s: Seq<u8>, i: int) -> Option<(u16, int)> {
    if 0 <= i && i + 2 <= s.len() {
        Some(((s[i] as u16 * 256 + s[i + 1] as u16) as u16, i + 2))
    } else {
        None
    }
}

fn ser_u16(out: &mut Vec<u8>, v: u16)
    ensures
        final(out)@ == old(out)@ + spec_ser_u16(v),
{
    out.push((v / 256) as u8);
    out.push((v % 256) as u8);
    proof {
        assert(out@ =~= old(out)@ + spec_ser_u16(v));
    }
}

fn parse_u16(s: &Vec<u8>, i: usize) -> (r: Option<(u16, usize)>)
    ensures
        match r {
            Some((v, j)) => spec_parse_u16(s@, i as int) == Some((v, j as int)),
            None => spec_parse_u16(s@, i as int) is None,
        },
{
    if i < s.len() && s.len() - i >= 2 {
        let v: u16 = s[i] as u16 * 256 + s[i + 1] as u16;
        Some((v, i + 2))
    } else {
        None
    }
}

proof fn lemma_rt_u16(v: u16, s: Seq<u8>, i: int)
    requires
        0 <= i,
        i + 2 <= s.len(),
        s.subrange(i, i + 2) == spec_ser_u16(v),
    ensures
        spec_parse_u16(s, i) == Some((v, i + 2)),
{
    assert(s[i] == s.subrange(i, i + 2)[0]);
    assert(s[i + 1] == s.subrange(i, i + 2)[1]);
    assert((v / 256) as u8 as u16 * 256 + (v % 256) as u8 as u16 == v) by (bit_vector);
}

// ----- sixty-four-bit numbers, big endian, four sixteen-bit chunks -----
pub open spec fn spec_ser_u64(v: u64) -> Seq<u8> {
    spec_ser_u16((v / 0x1000000000000) as u16) + spec_ser_u16(((v / 0x100000000) % 0x10000) as u16)
        + spec_ser_u16(((v / 0x10000) % 0x10000) as u16) + spec_ser_u16((v % 0x10000) as u16)
}

pub open spec fn spec_parse_u64(s: Seq<u8>, i: int) -> Option<(u64, int)> {
    match spec_parse_u16(s, i) {
        Some((a, i1)) => match spec_parse_u16(s, i1) {
            Some((b, i2)) => match spec_parse_u16(s, i2) {
                Some((c, i3)) => match spec_parse_u16(s, i3) {
                    Some((d, i4)) => Some(
                        (
                            ((a as u64) * 0x1000000000000 + (b as u64) * 0x100000000 + (c as u64)
                                * 0x10000 + (d as u64)) as u64,
                            i4,
                        ),
                    ),
                    None => None,
                },
                None => None,
            },
            None => None,
        },
        None => None,
    }
}

fn ser_u64(out: &mut Vec<u8>, v: u64)
    ensures
        final(out)@ == old(out)@ + spec_ser_u64(v),
{
    ser_u16(out, (v / 0x1000000000000) as u16);
    ser_u16(out, ((v / 0x100000000) % 0x10000) as u16);
    ser_u16(out, ((v / 0x10000) % 0x10000) as u16);
    ser_u16(out, (v % 0x10000) as u16);
    proof {
        assert(out@ =~= old(out)@ + spec_ser_u64(v));
    }
}

fn parse_u64(s: &Vec<u8>, i: usize) -> (r: Option<(u64, usize)>)
    ensures
        match r {
            Some((v, j)) => spec_parse_u64(s@, i as int) == Some((v, j as int)),
            None => spec_parse_u64(s@, i as int) is None,
        },
{
    let (a, i1) = match parse_u16(s, i) {
        Some(x) => x,
        None => { return None; },
    };
    let (b, i2) = match parse_u16(s, i1) {
        Some(x) => x,
        None => { return None; },
    };
    let (c, i3) = match parse_u16(s, i2) {
        Some(x) => x,
        None => { return None; },
    };
    let (d, i4) = match parse_u16(s, i3) {
        Some(x) => x,
        None => { return None; },
    };
    let v: u64 = (a as u64) * 0x1000000000000 + (b as u64) * 0x100000000 + (c as u64) * 0x10000 + (
    d as u64);
    Some((v, i4))
}

proof fn lemma_rt_u64(v: u64, s: Seq<u8>, i: int)
    requires
        0 <= i,
        i + 8 <= s.len(),
        s.subrange(i, i + 8) == spec_ser_u64(v),
    ensures
        spec_parse_u64(s, i) == Some((v, i + 8)),
{
    let a = (v / 0x1000000000000) as u16;
    let b = ((v / 0x100000000) % 0x10000) as u16;
    let c = ((v / 0x10000) % 0x10000) as u16;
    let d = (v % 0x10000) as u16;
    assert(s.subrange(i, i + 8) =~= (spec_ser_u16(a) + spec_ser_u16(b)) + (spec_ser_u16(c)
        + spec_ser_u16(d)));
    lemma_split(s, i, spec_ser_u16(a) + spec_ser_u16(b), spec_ser_u16(c) + spec_ser_u16(d));
    lemma_split(s, i, spec_ser_u16(a), spec_ser_u16(b));
    lemma_split(s, i + 4, spec_ser_u16(c), spec_ser_u16(d));
    lemma_rt_u16(a, s, i);
    lemma_rt_u16(b, s, i + 2);
    lemma_rt_u16(c, s, i + 4);
    lemma_rt_u16(d, s, i + 6);
    assert(((v / 0x1000000000000) as u16 as u64) * 0x1000000000000 + (((v / 0x100000000)
        % 0x10000) as u16 as u64) * 0x100000000 + (((v / 0x10000) % 0x10000) as u16 as u64)
        * 0x10000 + ((v % 0x10000) as u16 as u64) == v) by (bit_vector);
}

// ----- map coordinates, offset so negatives survive -----
pub open spec fn spec_ser_i16(v: i16) -> Seq<u8> {
    spec_ser_u16(((v + 32768) % 0x10000) as u16)
}

pub open spec fn spec_parse_i16(s: Seq<u8>, i: int) -> Option<(i16, int)> {
    match spec_parse_u16(s, i) {
        Some((u, j)) => Some(((u - 32768) as i16, j)),
        None => None,
    }
}

fn ser_i16(out: &mut Vec<u8>, v: i16)
    ensures
        final(out)@ == old(out)@ + spec_ser_i16(v),
{
    let u: u16 = ((v as i32) + 32768) as u16;
    proof {
        assert(u == ((v + 32768) % 0x10000) as u16);
    }
    ser_u16(out, u);
}

fn parse_i16(s: &Vec<u8>, i: usize) -> (r: Option<(i16, usize)>)
    ensures
        match r {
            Some((v, j)) => spec_parse_i16(s@, i as int) == Some((v, j as int)),
            None => spec_parse_i16(s@, i as int) is None,
        },
{
    match parse_u16(s, i) {
        Some((u, j)) => Some((((u as i32) - 32768) as i16, j)),
        None => None,
    }
}

proof fn lemma_rt_i16(v: i16, s: Seq<u8>, i: int)
    requires
        0 <= i,
        i + 2 <= s.len(),
        s.subrange(i, i + 2) == spec_ser_i16(v),
    ensures
        spec_parse_i16(s, i) == Some((v, i + 2)),
{
    let u = ((v + 32768) % 0x10000) as u16;
    lemma_rt_u16(u, s, i);
    assert((u - 32768) as i16 == v);
}

// ----- booleans -----
pub open spec fn spec_ser_bool(v: bool) -> Seq<u8> {
    if v {
        seq![1u8]
    } else {
        seq![0u8]
    }
}

pub open spec fn spec_parse_bool(s: Seq<u8>, i: int) -> Option<(bool, int)> {
    match spec_parse_u8(s, i) {
        Some((b, j)) => Some((b != 0, j)),
        None => None,
    }
}

fn ser_bool(out: &mut Vec<u8>, v: bool)
    ensures
        final(out)@ == old(out)@ + spec_ser_bool(v),
{
    ser_u8(
        out,
        if v {
            1
        } else {
            0
        },
    );
}

fn parse_bool(s: &Vec<u8>, i: usize) -> (r: Option<(bool, usize)>)
    ensures
        match r {
            Some((v, j)) => spec_parse_bool(s@, i as int) == Some((v, j as int)),
            None => spec_parse_bool(s@, i as int) is None,
        },
{
    match parse_u8(s, i) {
        Some((b, j)) => Some((b != 0, j)),
        None => None,
    }
}

proof fn lemma_rt_bool(v: bool, s: Seq<u8>, i: int)
    requires
        0 <= i,
        i + 1 <= s.len(),
        s.subrange(i, i + 1) == spec_ser_bool(v),
    ensures
        spec_parse_bool(s, i) == Some((v, i + 1)),
{
    lemma_rt_u8(
        if v {
            1
        } else {
            0
        },
        s,
        i,
    );
}

// ----- strings: length-prefixed UTF-8 -----
/// The machine limit on an encodable text: its UTF-8 form must fit the
/// length prefix.
pub open spec fn spec_string_len_ok(v: Seq<char>) -> bool {
    encode_utf8(v).len() <= u64::MAX
}

#[verifier::opaque]
pub open spec fn spec_ser_string(v: Seq<char>) -> Seq<u8> {
    spec_ser_u64(encode_utf8(v).len() as u64) + encode_utf8(v)
}

#[verifier::opaque]
pub open spec fn spec_parse_string(s: Seq<u8>, i: int) -> Option<(Seq<char>, int)> {
    match spec_parse_u64(s, i) {
        Some((n, j)) => if j + n <= s.len() && valid_utf8(s.subrange(j, j + n)) {
            Some((decode_utf8(s.subrange(j, j + n)), j + n))
        } else {
            None
        },
        None => None,
    }
}

/// Relies on str::as_bytes: the UTF-8 encoding of the string's characters.
fn string_bytes(v: &String) -> (r: Vec<u8>)
    ensures
        r@ == encode_utf8(v@),
{
    v.as_str().as_bytes_vec()
}

/// Relies on String::from_utf8: decodes UTF-8 bytes into the string they
/// encode, failing exactly on bytes that are not valid UTF-8.
#[verifier::external_body]
fn string_from_bytes(bytes: Vec<u8>) -> (r: Option<String>)
    ensures
        match r {
            Some(s) => valid_utf8(bytes@) && s@ == decode_utf8(bytes@),
            None => !valid_utf8(bytes@),
        },
{
    String::from_utf8(bytes).ok()
}

fn ser_string(out: &mut Vec<u8>, v: &String)
    ensures
        final(out)@ == old(out)@ + spec_ser_string(v@),
{
    proof { reveal(spec_ser_string); }
    let bytes = string_bytes(v);
    ser_u64(out, bytes.len() as u64);
    let mut i: usize = 0;
    let ghost mid = out@;
    while i < bytes.len()
        invariant
            0 <= i <= bytes@.len(),
            bytes@ == encode_utf8(v@),
            out@ == mid + bytes@.take(i as int),
        decreases bytes@.len() - i,
    {
        proof {
            assert(mid + bytes@.take(i + 1 as int) =~= (mid + bytes@.take(i as int)).push(
                bytes@[i as int],
            ));
        }
        out.push(bytes[i]);
        i += 1;
    }
    proof {
        assert(mid + bytes@.take(bytes@.len() as int) =~= mid + bytes@);
        assert(out@ =~= old(out)@ + spec_ser_string(v@));
    }
}

fn parse_string(s: &Vec<u8>, i: usize) -> (r: Option<(String, usize)>)
    ensures
        match r {
            Some((v, j)) => spec_parse_string(s@, i as int) == Some((v@, j as int)),
            None => spec_parse_string(s@, i as int) is None,
        },
{
    proof { reveal(spec_parse_string); }
    let (n, j) = match parse_u64(s, i) {
        Some(x) => x,
        None => { return None; },
    };
    if n > (s.len() as u64) {
        return None;
    }
    let n = n as usize;
    if j > s.len() - n {
        return None;
    }
    let mut bytes: Vec<u8> = Vec::new();
    let mut k: usize = 0;
    while k < n
        invariant
            0 <= k <= n,
            j + n <= s@.len(),
            s@.len() <= usize::MAX,
            bytes@ == s@.subrange(j as int, j + k as int),
        decreases n - k,
    {
        proof {
            assert(s@.subrange(j as int, j + (k + 1) as int) =~= s@.subrange(
                j as int,
                j + k as int,
            ).push(s@[j + k]));
        }
        bytes.push(s[j + k]);
        k += 1;
    }
    match string_from_bytes(bytes) {
        Some(v) => Some((v, j + n)),
        None => None,
    }
}

#[verifier::rlimit(100)]
#[verifier::spinoff_prover]
proof fn lemma_rt_string(v: Seq<char>, s: Seq<u8>, i: int)
    requires
        spec_string_len_ok(v),
        0 <= i,
        i + spec_ser_string(v).len() <= s.len(),
        s.subrange(i, i + spec_ser_string(v).len()) == spec_ser_string(v),
    ensures
        spec_parse_string(s, i) == Some((v, i + spec_ser_string(v).len())),
{
    reveal(spec_ser_string);
    reveal(spec_parse_string);
    let bytes = encode_utf8(v);
    lemma_split(s, i, spec_ser_u64(bytes.len() as u64), bytes);
    lemma_rt_u64(bytes.len() as u64, s, i);
    assert(s.subrange(i + 8, i + 8 + bytes.len()) =~= bytes);
    vstd::utf8::encode_utf8_valid_utf8(v);
    vstd::utf8::encode_utf8_decode_utf8(v);
}

// ----- positions -----
pub open spec fn spec_ser_pos(p: TilePosition) -> Seq<u8> {
    spec_ser_i16(p.x) + spec_ser_i16(p.y)
}

pub open spec fn spec_parse_pos(s: Seq<u8>, i: int) -> Option<(TilePosition, int)> {
    match spec_parse_i16(s, i) {
        Some((x, j)) => match spec_parse_i16(s, j) {
            Some((y, j2)) => Some((TilePosition { x, y }, j2)),
            None => None,
        },
        None => None,
    }
}

fn ser_pos(out: &mut Vec<u8>, p: TilePosition)
    ensures
        final(out)@ == old(out)@ + spec_ser_pos(p),
{
    ser_i16(out, p.x);
    ser_i16(out, p.y);
    proof {
        assert(out@ =~= old(out)@ + spec_ser_pos(p));
    }
}

fn parse_pos(s: &Vec<u8>, i: usize) -> (r: Option<(TilePosition, usize)>)
    ensures
        match r {
            Some((v, j)) => spec_parse_pos(s@, i as int) == Some((v, j as int)),
            None => spec_parse_pos(s@, i as int) is None,
        },
{
    let (x, j) = match parse_i16(s, i) {
        Some(v) => v,
        None => { return None; },
    };
    let (y, j2) = match parse_i16(s, j) {
        Some(v) => v,
        None => { return None; },
    };
    Some((TilePosition { x, y }, j2))
}

proof fn lemma_rt_pos(p: TilePosition, s: Seq<u8>, i: int)
    requires
        0 <= i,
        i + 4 <= s.len(),
        s.subrange(i, i + 4) == spec_ser_pos(p),
    ensures
        spec_parse_pos(s, i) == Some((p, i + 4)),
{
    lemma_split(s, i, spec_ser_i16(p.x), spec_ser_i16(p.y));
    lemma_rt_i16(p.x, s, i);
    lemma_rt_i16(p.y, s, i + 2);
}

// ----- unit templates -----
#[verifier::opaque]
pub open spec fn spec_ser_template(t: UnitTemplateModel) -> Seq<u8> {
    spec_ser_u16(t.id.0) + spec_ser_u8(
        match t.unit_type {
            UnitType::Civilian => 0u8,
            UnitType::Soldier => 1u8,
        },
    ) + spec_ser_string(t.name) + spec_ser_i16(t.movement) + spec_ser_bool(t.abilities.settle)
        + spec_ser_bool(t.abilities.harvest) + spec_ser_u64(t.production_cost.0) + (match t
        .initial_charges {
        Some(n) => seq![1u8] + spec_ser_u64(n),
        None => seq![0u8],
    })
}

#[verifier::opaque]
pub open spec fn spec_parse_template(s: Seq<u8>, i: int) -> Option<(UnitTemplateModel, int)> {
    match spec_parse_u16(s, i) {
        Some((id, i1)) => match spec_parse_u8(s, i1) {
            Some((ty, i2)) => if ty != 0 && ty != 1 {
                None
            } else {
                match spec_parse_string(s, i2) {
                    Some((name, i3)) => match spec_parse_i16(s, i3) {
                        Some((movement, i4)) => match spec_parse_bool(s, i4) {
                            Some((settle, i5)) => match spec_parse_bool(s, i5) {
                                Some((harvest, i6)) => match spec_parse_u64(s, i6) {
                                    Some((cost, i7)) => match spec_parse_u8(s, i7) {
                                        Some((tag, i8)) => if tag == 0 {
                                            Some(
                                                (
                                                    UnitTemplateModel {
                                                        id: UnitTemplateId(id),
                                                        unit_type: if ty == 0 {
                                                            UnitType::Civilian
                                                        } else {
                                                            UnitType::Soldier
                                                        },
                                                        name,
                                                        movement,
                                                        abilities: AbilitySet { settle, harvest },
                                                        production_cost: YieldValue(cost),
                                                        initial_charges: None,
                                                    },
                                                    i8,
                                                ),
                                            )
                                        } else if tag == 1 {
                                            match spec_parse_u64(s, i8) {
                                                Some((n, i9)) => Some(
                                                    (
                                                        UnitTemplateModel {
                                                            id: UnitTemplateId(id),
                                                            unit_type: if ty == 0 {
                                                                UnitType::Civilian
                                                            } else {
                                                                UnitType::Soldier
                                                            },
                                                            name,
                                                            movement,
                                                            abilities: AbilitySet {
                                                                settle,
                                                                harvest,
                                                            },
                                                            production_cost: YieldValue(cost),
                                                            initial_charges: Some(n),
                                                        },
                                                        i9,
                                                    ),
                                                ),
                                                None => None,
                                            }
                                        } else {
                                            None
                                        },
                                        None => None,
                                    },
                                    None => None,
                                },
                                None => None,
                            },
                            None => None,
                        },
                        None => None,
                    },
                    None => None,
                }
            },
            None => None,
        },
        None => None,
    }
}

#[verifier::rlimit(100)]
#[verifier::spinoff_prover]
fn ser_template(out: &mut Vec<u8>, t: &UnitTemplate)
    requires
        old(out)@.len() + spec_ser_template(t.model()).len() <= usize::MAX,
    ensures
        final(out)@ == old(out)@ + spec_ser_template(t.model()),
{
    proof {
        reveal(spec_ser_template);
        reveal(spec_ser_string);
    }
    ser_u16(out, t.id.0);
    ser_u8(
        out,
        match t.unit_type {
            UnitType::Civilian => 0,
            UnitType::Soldier => 1,
        },
    );
    ser_string(out, &t.name);
    ser_i16(out, t.movement);
    ser_bool(out, t.abilities.settle);
    ser_bool(out, t.abilities.harvest);
    ser_u64(out, t.production_cost.0);
    match t.initial_charges {
        Some(n) => {
            ser_u8(out, 1);
            ser_u64(out, n);
        },
        None => {
            ser_u8(out, 0);
        },
    }
    proof {
        assert(out@ =~= old(out)@ + spec_ser_template(t.model()));
    }
}

fn parse_template(s: &Vec<u8>, i: usize) -> (r: Option<(UnitTemplate, usize)>)
    ensures
        match r {
            Some((v, j)) => spec_parse_template(s@, i as int) == Some((v.model(), j as int)),
            None => spec_parse_template(s@, i as int) is None,
        },
{
    proof { reveal(spec_parse_template); }
    let (id, i1) = match parse_u16(s, i) {
        Some(v) => v,
        None => { return None; },
    };
    let (ty, i2) = match parse_u8(s, i1) {
        Some(v) => v,
        None => { return None; },
    };
    if ty != 0 && ty != 1 {
        return None;
    }
    let (name, i3) = match parse_string(s, i2) {
        Some(v) => v,
        None => { return None; },
    };
    let (movement, i4) = match parse_i16(s, i3) {
        Some(v) => v,
        None => { return None; },
    };
    let (settle, i5) = match parse_bool(s, i4) {
        Some(v) => v,
        None => { return None; },
    };
    let (harvest, i6) = match parse_bool(s, i5) {
        Some(v) => v,
        None => { return None; },
    };
    let (cost, i7) = match parse_u64(s, i6) {
        Some(v) => v,
        None => { return None; },
    };
    let (tag, i8) = match parse_u8(s, i7) {
        Some(v) => v,
        None => { return None; },
    };
    let unit_type = if ty == 0 {
        UnitType::Civilian
    } else {
        UnitType::Soldier
    };
    if tag == 0 {
        Some(
            (
                UnitTemplate {
                    id: UnitTemplateId(id),
                    unit_type,
                    name,
                    movement,
                    abilities: AbilitySet { settle, harvest },
                    production_cost: YieldValue(cost),
                    initial_charges: None,
                },
                i8,
            ),
        )
    } else if tag == 1 {
        let (n, i9) = match parse_u64(s, i8) {
            Some(v) => v,
            None => { return None; },
        };
        Some(
            (
                UnitTemplate {
                    id: UnitTemplateId(id),
                    unit_type,
                    name,
                    movement,
                    abilities: AbilitySet { settle, harvest },
                    production_cost: YieldValue(cost),
                    initial_charges: Some(n),
                },
                i9,
            ),
        )
    } else {
        None
    }
}

#[verifier::rlimit(100)]
#[verifier::spinoff_prover]
proof fn lemma_rt_template(t: UnitTemplateModel, s: Seq<u8>, i: int)
    requires
        spec_string_len_ok(t.name),
        0 <= i,
        i + spec_ser_template(t).len() <= s.len(),
        s.subrange(i, i + spec_ser_template(t).len()) == spec_ser_template(t),
    ensures
        spec_parse_template(s, i) == Some((t, i + spec_ser_template(t).len())),
{
    reveal(spec_ser_template);
    reveal(spec_parse_template);
    let ty: u8 = match t.unit_type {
        UnitType::Civilian => 0u8,
        UnitType::Soldier => 1u8,
    };
    let a = spec_ser_u16(t.id.0);
    let b = spec_ser_u8(ty);
    let c = spec_ser_string(t.name);
    let d = spec_ser_i16(t.movement);
    let e = spec_ser_bool(t.abilities.settle);
    let f = spec_ser_bool(t.abilities.harvest);
    let g = spec_ser_u64(t.production_cost.0);
    let h = match t.initial_charges {
        Some(n) => seq![1u8] + spec_ser_u64(n),
        None => seq![0u8],
    };
    assert(spec_ser_template(t) =~= a + (b + (c + (d + (e + (f + (g + h)))))));
    lemma_split(s, i, a, b + (c + (d + (e + (f + (g + h))))));
    lemma_rt_u16(t.id.0, s, i);
    let i1 = i + 2;
    lemma_split(s, i1, b, c + (d + (e + (f + (g + h)))));
    lemma_rt_u8(ty, s, i1);
    let i2 = i1 + 1;
    lemma_split(s, i2, c, d + (e + (f + (g + h))));
    lemma_rt_string(t.name, s, i2);
    let i3 = i2 + c.len();
    lemma_split(s, i3, d, e + (f + (g + h)));
    lemma_rt_i16(t.movement, s, i3);
    let i4 = i3 + 2;
    lemma_split(s, i4, e, f + (g + h));
    lemma_rt_bool(t.abilities.settle, s, i4);
    let i5 = i4 + 1;
    lemma_split(s, i5, f, g + h);
    lemma_rt_bool(t.abilities.harvest, s, i5);
    let i6 = i5 + 1;
    lemma_split(s, i6, g, h);
    lemma_rt_u64(t.production_cost.0, s, i6);
    let i7 = i6 + 8;
    match t.initial_charges {
        Some(n) => {
            lemma_split(s, i7, seq![1u8], spec_ser_u64(n));
            lemma_rt_u8(1u8, s, i7);
            lemma_rt_u64(n, s, i7 + 1);
            assert(t =~= spec_parse_template(s, i)->Some_0.0);
        },
        None => {
            lemma_rt_u8(0u8, s, i7);
            assert(t =~= spec_parse_template(s, i)->Some_0.0);
        },
    }
}

// ----- production orders -----
#[verifier::opaque]
pub open spec fn spec_ser_producing(p: Option<ProducingItemIdModel>) -> Seq<u8> {
    match p {
        None => seq![0u8],
        Some(ProducingItemIdModel::Unit(t)) => seq![1u8] + spec_ser_template(t),
        Some(ProducingItemIdModel::Building(id)) => seq![2u8] + spec_ser_u16(id.0),
    }
}

#[verifier::opaque]
pub open spec fn spec_parse_producing(s: Seq<u8>, i: int) -> Option<
    (Option<ProducingItemIdModel>, int),
> {
    match spec_parse_u8(s, i) {
        Some((tag, j)) => if tag == 0 {
            Some((None, j))
        } else if tag == 1 {
            match spec_parse_template(s, j) {
                Some((t, j2)) => Some((Some(ProducingItemIdModel::Unit(t)), j2)),
                None => None,
            }
        } else if tag == 2 {
            match spec_parse_u16(s, j) {
                Some((id, j2)) => Some(
                    (Some(ProducingItemIdModel::Building(crate::building::BuildingTypeId(id))), j2),
                ),
                None => None,
            }
        } else {
            None
        },
        None => None,
    }
}

fn ser_producing(out: &mut Vec<u8>, p: &Option<ProducingItemId>)
    requires
        old(out)@.len() + spec_ser_producing(
            match p {
                Some(x) => Some(x.model()),
                None => None,
            },
        ).len() <= usize::MAX,
    ensures
        final(out)@ == old(out)@ + spec_ser_producing(
            match p {
                Some(x) => Some(x.model()),
                None => None,
            },
        ),
{
    proof {
        reveal(spec_ser_producing);
        reveal(spec_ser_template);
    }
    match p {
        None => {
            ser_u8(out, 0);
        },
        Some(ProducingItemId::Unit(t)) => {
            ser_u8(out, 1);
            ser_template(out, t);
        },
        Some(ProducingItemId::Building(id)) => {
            ser_u8(out, 2);
            ser_u16(out, id.0);
        },
    }
    proof {
        assert(out@ =~= old(out)@ + spec_ser_producing(
            match p {
                Some(x) => Some(x.model()),
                None => None,
            },
        ));
    }
}

fn parse_producing(s: &Vec<u8>, i: usize) -> (r: Option<(Option<ProducingItemId>, usize)>)
    ensures
        match r {
            Some((v, j)) => spec_parse_producing(s@, i as int) == Some(
                (
                    match v {
                        Some(x) => Some(x.model()),
                        None => None,
                    },
                    j as int,
                ),
            ),
            None => spec_parse_producing(s@, i as int) is None,
        },
{
    proof { reveal(spec_parse_producing); }
    let (tag, j) = match parse_u8(s, i) {
        Some(v) => v,
        None => { return None; },
    };
    if tag == 0 {
        Some((None, j))
    } else if tag == 1 {
        match parse_template(s, j) {
            Some((t, j2)) => Some((Some(ProducingItemId::Unit(t)), j2)),
            None => None,
        }
    } else if tag == 2 {
        match parse_u16(s, j) {
            Some((id, j2)) => Some(
                (Some(ProducingItemId::Building(crate::building::BuildingTypeId(id))), j2),
            ),
            None => None,
        }
    } else {
        None
    }
}

proof fn lemma_rt_producing(p: Option<ProducingItemIdModel>, s: Seq<u8>, i: int)
    requires
        match p {
            Some(ProducingItemIdModel::Unit(t)) => spec_string_len_ok(t.name),
            _ => true,
        },
        0 <= i,
        i + spec_ser_producing(p).len() <= s.len(),
        s.subrange(i, i + spec_ser_producing(p).len()) == spec_ser_producing(p),
    ensures
        spec_parse_producing(s, i) == Some((p, i + spec_ser_producing(p).len())),
{
    reveal(spec_ser_producing);
    reveal(spec_parse_producing);
    match p {
        None => {
            lemma_rt_u8(0u8, s, i);
        },
        Some(ProducingItemIdModel::Unit(t)) => {
            lemma_split(s, i, seq![1u8], spec_ser_template(t));
            lemma_rt_u8(1u8, s, i);
            lemma_rt_template(t, s, i + 1);
        },
        Some(ProducingItemIdModel::Building(id)) => {
            lemma_split(s, i, seq![2u8], spec_ser_u16(id.0));
            lemma_rt_u8(2u8, s, i);
            lemma_rt_u16(id.0, s, i + 1);
        },
    }
}

/// The machine limit on an encodable production order.
pub open spec fn spec_producing_len_ok(p: Option<ProducingItemIdModel>) -> bool {
    match p {
        Some(ProducingItemIdModel::Unit(t)) => spec_string_len_ok(t.name),
        _ => true,
    }
}

/// The machine limit on an encodable action: any text it carries must
/// fit the length prefix.
pub open spec fn spec_action_len_ok(a: GameActionTypeModel) -> bool {
    match a {
        GameActionTypeModel::RenameCity { name, .. } => spec_string_len_ok(name),
        GameActionTypeModel::SetProducing { producing, .. } => spec_producing_len_ok(producing),
        _ => true,
    }
}

/// The machine limit on an encodable event: any text it carries must
/// fit the length prefix.
pub open spec fn spec_event_len_ok(e: GameEventTypeModel) -> bool {
    match e {
        GameEventTypeModel::RenameCity { name, .. } => spec_string_len_ok(name),
        GameEventTypeModel::SetProducing { producing, .. } => spec_producing_len_ok(producing),
        GameEventTypeModel::NewUnit { template, .. } => spec_string_len_ok(template.name),
        GameEventTypeModel::Crash { message } => spec_string_len_ok(message),
        _ => true,
    }
}

// ----- actions -----
/// The byte encoding of an action: a tag byte and the fields in order.
#[verifier::opaque]
pub open spec fn spec_ser_action(a: GameActionTypeModel) -> Seq<u8> {
    match a {
        GameActionTypeModel::MoveUnit { unit_id, position } => seq![0u8] + spec_ser_u16(unit_id.0)
            + spec_ser_pos(position),
        GameActionTypeModel::FoundCity { unit_id } => seq![1u8] + spec_ser_u16(unit_id.0),
        GameActionTypeModel::RenameCity { city_id, name } => seq![2u8] + spec_ser_u16(city_id.0)
            + spec_ser_string(name),
        GameActionTypeModel::SetReady(ready) => seq![3u8] + spec_ser_bool(ready),
        GameActionTypeModel::SetProducing { city_id, producing } => seq![4u8] + spec_ser_u16(
            city_id.0,
        ) + spec_ser_producing(producing),
        GameActionTypeModel::SetSleeping { unit_id, sleeping } => seq![5u8] + spec_ser_u16(
            unit_id.0,
        ) + spec_ser_bool(sleeping),
        GameActionTypeModel::SetCitizenLocked { city_id, position, locked } => seq![6u8]
            + spec_ser_u16(city_id.0) + spec_ser_pos(position) + spec_ser_bool(locked),
        GameActionTypeModel::Harvest { unit_id } => seq![7u8] + spec_ser_u16(unit_id.0),
        GameActionTypeModel::SetResearch { tech_id } => seq![8u8] + spec_ser_u8(tech_id.0),
    }
}

/// The action a byte string encodes from position `i`, with the position
/// after it.
#[verifier::opaque]
pub open spec fn spec_parse_action(s: Seq<u8>, i: int) -> Option<(GameActionTypeModel, int)> {
    match spec_parse_u8(s, i) {
        None => None,
        Some((tag, j)) => if tag == 0 {
            match spec_parse_u16(s, j) {
                Some((u, j1)) => match spec_parse_pos(s, j1) {
                    Some((p, j2)) => Some(
                        (GameActionTypeModel::MoveUnit { unit_id: UnitId(u), position: p }, j2),
                    ),
                    None => None,
                },
                None => None,
            }
        } else if tag == 1 {
            match spec_parse_u16(s, j) {
                Some((u, j1)) => Some(
                    (GameActionTypeModel::FoundCity { unit_id: UnitId(u) }, j1),
                ),
                None => None,
            }
        } else if tag == 2 {
            match spec_parse_u16(s, j) {
                Some((c, j1)) => match spec_parse_string(s, j1) {
                    Some((name, j2)) => Some(
                        (GameActionTypeModel::RenameCity { city_id: CityId(c), name }, j2),
                    ),
                    None => None,
                },
                None => None,
            }
        } else if tag == 3 {
            match spec_parse_bool(s, j) {
                Some((b, j1)) => Some((GameActionTypeModel::SetReady(b), j1)),
                None => None,
            }
        } else if tag == 4 {
            match spec_parse_u16(s, j) {
                Some((c, j1)) => match spec_parse_producing(s, j1) {
                    Some((p, j2)) => Some(
                        (
                            GameActionTypeModel::SetProducing {
                                city_id: CityId(c),
                                producing: p,
                            },
                            j2,
                        ),
                    ),
                    None => None,
                },
                None => None,
            }
        } else if tag == 5 {
            match spec_parse_u16(s, j) {
                Some((u, j1)) => match spec_parse_bool(s, j1) {
                    Some((b, j2)) => Some(
                        (
                            GameActionTypeModel::SetSleeping {
                                unit_id: UnitId(u),
                                sleeping: b,
                            },
                            j2,
                        ),
                    ),
                    None => None,
                },
                None => None,
            }
        } else if tag == 6 {
            match spec_parse_u16(s, j) {
                Some((c, j1)) => match spec_parse_pos(s, j1) {
                    Some((p, j2)) => match spec_parse_bool(s, j2) {
                        Some((b, j3)) => Some(
                            (
                                GameActionTypeModel::SetCitizenLocked {
                                    city_id: CityId(c),
                                    position: p,
                                    locked: b,
                                },
                                j3,
                            ),
                        ),
                        None => None,
                    },
                    None => None,
                },
                None => None,
            }
        } else if tag == 7 {
            match spec_parse_u16(s, j) {
                Some((u, j1)) => Some((GameActionTypeModel::Harvest { unit_id: UnitId(u) }, j1)),
                None => None,
            }
        } else if tag == 8 {
            match spec_parse_u8(s, j) {
                Some((t, j1)) => Some(
                    (GameActionTypeModel::SetResearch { tech_id: TechId(t) }, j1),
                ),
                None => None,
            }
        } else {
            None
        },
    }
}

/// Encode one action as a self-delimiting record.
#[verifier::rlimit(100)]
#[verifier::spinoff_prover]
pub fn encode_action(a: &GameActionType) -> (r: Vec<u8>)
    requires
        spec_ser_action(a.model()).len() <= usize::MAX,
    ensures
        r@ == spec_ser_action(a.model()),
{
    proof {
        reveal(spec_ser_action);
        reveal(spec_ser_string);
        reveal(spec_ser_producing);
        reveal(spec_ser_template);
    }
    let mut out: Vec<u8> = Vec::new();
    match a {
        GameActionType::MoveUnit { unit_id, position } => {
            ser_u8(&mut out, 0);
            ser_u16(&mut out, unit_id.0);
            ser_pos(&mut out, *position);
        },
        GameActionType::FoundCity { unit_id } => {
            ser_u8(&mut out, 1);
            ser_u16(&mut out, unit_id.0);
        },
        GameActionType::RenameCity { city_id, name } => {
            ser_u8(&mut out, 2);
            ser_u16(&mut out, city_id.0);
            ser_string(&mut out, name);
        },
        GameActionType::SetReady(ready) => {
            ser_u8(&mut out, 3);
            ser_bool(&mut out, *ready);
        },
        GameActionType::SetProducing { city_id, producing } => {
            ser_u8(&mut out, 4);
            ser_u16(&mut out, city_id.0);
            ser_producing(&mut out, producing);
        },
        GameActionType::SetSleeping { unit_id, sleeping } => {
            ser_u8(&mut out, 5);
            ser_u16(&mut out, unit_id.0);
            ser_bool(&mut out, *sleeping);
        },
        GameActionType::SetCitizenLocked { city_id, position, locked } => {
            ser_u8(&mut out, 6);
            ser_u16(&mut out, city_id.0);
            ser_pos(&mut out, *position);
            ser_bool(&mut out, *locked);
        },
        GameActionType::Harvest { unit_id } => {
            ser_u8(&mut out, 7);
            ser_u16(&mut out, unit_id.0);
        },
        GameActionType::SetResearch { tech_id } => {
            ser_u8(&mut out, 8);
            ser_u8(&mut out, tech_id.0);
        },
    }
    proof {
        assert(out@ =~= spec_ser_action(a.model()));
    }
    out
}

/// Decode one action from a byte string, from position `i`.
#[verifier::rlimit(100)]
#[verifier::spinoff_prover]
pub fn decode_action(s: &Vec<u8>, i: usize) -> (r: Option<(GameActionType, usize)>)
    ensures
        match r {
            Some((v, j)) => spec_parse_action(s@, i as int) == Some((v.model(), j as int)),
            None => spec_parse_action(s@, i as int) is None,
        },
{
    proof { reveal(spec_parse_action); }
    let (tag, j) = match parse_u8(s, i) {
        Some(v) => v,
        None => { return None; },
    };
    if tag == 0 {
        let (u, j1) = match parse_u16(s, j) {
            Some(v) => v,
            None => { return None; },
        };
        let (p, j2) = match parse_pos(s, j1) {
            Some(v) => v,
            None => { return None; },
        };
        Some((GameActionType::MoveUnit { unit_id: UnitId(u), position: p }, j2))
    } else if tag == 1 {
        let (u, j1) = match parse_u16(s, j) {
            Some(v) => v,
            None => { return None; },
        };
        Some((GameActionType::FoundCity { unit_id: UnitId(u) }, j1))
    } else if tag == 2 {
        let (c, j1) = match parse_u16(s, j) {
            Some(v) => v,
            None => { return None; },
        };
        let (name, j2) = match parse_string(s, j1) {
            Some(v) => v,
            None => { return None; },
        };
        Some((GameActionType::RenameCity { city_id: CityId(c), name }, j2))
    } else if tag == 3 {
        let (b, j1) = match parse_bool(s, j) {
            Some(v) => v,
            None => { return None; },
        };
        Some((GameActionType::SetReady(b), j1))
    } else if tag == 4 {
        let (c, j1) = match parse_u16(s, j) {
            Some(v) => v,
            None => { return None; },
        };
        let (p, j2) = match parse_producing(s, j1) {
            Some(v) => v,
            None => { return None; },
        };
        Some((GameActionType::SetProducing { city_id: CityId(c), producing: p }, j2))
    } else if tag == 5 {
        let (u, j1) = match parse_u16(s, j) {
            Some(v) => v,
            None => { return None; },
        };
        let (b, j2) = match parse_bool(s, j1) {
            Some(v) => v,
            None => { return None; },
        };
        Some((GameActionType::SetSleeping { unit_id: UnitId(u), sleeping: b }, j2))
    } else if tag == 6 {
        let (c, j1) = match parse_u16(s, j) {
            Some(v) => v,
            None => { return None; },
        };
        let (p, j2) = match parse_pos(s, j1) {
            Some(v) => v,
            None => { return None; },
        };
        let (b, j3) = match parse_bool(s, j2) {
            Some(v) => v,
            None => { return None; },
        };
        Some(
            (GameActionType::SetCitizenLocked { city_id: CityId(c), position: p, locked: b }, j3),
        )
    } else if tag == 7 {
        let (u, j1) = match parse_u16(s, j) {
            Some(v) => v,
            None => { return None; },
        };
        Some((GameActionType::Harvest { unit_id: UnitId(u) }, j1))
    } else if tag == 8 {
        let (t, j1) = match parse_u8(s, j) {
            Some(v) => v,
            None => { return None; },
        };
        Some((GameActionType::SetResearch { tech_id: TechId(t) }, j1))
    } else {
        None
    }
}



#[verifier::rlimit(100)]
#[verifier::spinoff_prover]
proof fn lemma_rt_action_move_unit(a: GameActionTypeModel, s: Seq<u8>, i: int)
    requires
        0 <= i,
        i + spec_ser_action(a).len() <= s.len(),
        s.subrange(i, i + spec_ser_action(a).len()) == spec_ser_action(a),
        a matches GameActionTypeModel::MoveUnit { .. },
    ensures
        spec_parse_action(s, i) == Some((a, i + spec_ser_action(a).len())),
{
    reveal(spec_ser_action);
    reveal(spec_parse_action);
    match a {
        GameActionTypeModel::MoveUnit { unit_id, position } => {
            assert(spec_ser_action(a) =~= seq![0u8] + (spec_ser_u16(unit_id.0) + spec_ser_pos(
                position,
            )));
            lemma_split(s, i, seq![0u8], spec_ser_u16(unit_id.0) + spec_ser_pos(position));
            lemma_rt_u8(0u8, s, i);
            lemma_split(s, i + 1, spec_ser_u16(unit_id.0), spec_ser_pos(position));
            lemma_rt_u16(unit_id.0, s, i + 1);
            lemma_rt_pos(position, s, i + 3);
        },
        _ => {},
    }
}

#[verifier::rlimit(100)]
#[verifier::spinoff_prover]
proof fn lemma_rt_action_found_city(a: GameActionTypeModel, s: Seq<u8>, i: int)
    requires
        0 <= i,
        i + spec_ser_action(a).len() <= s.len(),
        s.subrange(i, i + spec_ser_action(a).len()) == spec_ser_action(a),
        a matches GameActionTypeModel::FoundCity { .. },
    ensures
        spec_parse_action(s, i) == Some((a, i + spec_ser_action(a).len())),
{
    reveal(spec_ser_action);
    reveal(spec_parse_action);
    match a {
        GameActionTypeModel::FoundCity { unit_id } => {
            lemma_split(s, i, seq![1u8], spec_ser_u16(unit_id.0));
            lemma_rt_u8(1u8, s, i);
            lemma_rt_u16(unit_id.0, s, i + 1);
        },
        _ => {},
    }
}

#[verifier::rlimit(100)]
#[verifier::spinoff_prover]
proof fn lemma_rt_action_rename_city(a: GameActionTypeModel, s: Seq<u8>, i: int)
    requires
        0 <= i,
        i + spec_ser_action(a).len() <= s.len(),
        s.subrange(i, i + spec_ser_action(a).len()) == spec_ser_action(a),
        spec_action_len_ok(a),
        a matches GameActionTypeModel::RenameCity { .. },
    ensures
        spec_parse_action(s, i) == Some((a, i + spec_ser_action(a).len())),
{
    reveal(spec_ser_action);
    reveal(spec_parse_action);
    match a {
        GameActionTypeModel::RenameCity { city_id, name } => {
            assert(spec_ser_action(a) =~= seq![2u8] + (spec_ser_u16(city_id.0) + spec_ser_string(
                name,
            )));
            lemma_split(s, i, seq![2u8], spec_ser_u16(city_id.0) + spec_ser_string(name));
            lemma_rt_u8(2u8, s, i);
            lemma_split(s, i + 1, spec_ser_u16(city_id.0), spec_ser_string(name));
            lemma_rt_u16(city_id.0, s, i + 1);
            lemma_rt_string(name, s, i + 3);
        },
        _ => {},
    }
}

#[verifier::rlimit(100)]
#[verifier::spinoff_prover]
proof fn lemma_rt_action_set_ready(a: GameActionTypeModel, s: Seq<u8>, i: int)
    requires
        0 <= i,
        i + spec_ser_action(a).len() <= s.len(),
        s.subrange(i, i + spec_ser_action(a).len()) == spec_ser_action(a),
        a matches GameActionTypeModel::SetReady(..),
    ensures
        spec_parse_action(s, i) == Some((a, i + spec_ser_action(a).len())),
{
    reveal(spec_ser_action);
    reveal(spec_parse_action);
    match a {
        GameActionTypeModel::SetReady(ready) => {
            lemma_split(s, i, seq![3u8], spec_ser_bool(ready));
            lemma_rt_u8(3u8, s, i);
            lemma_rt_bool(ready, s, i + 1);
        },
        _ => {},
    }
}

#[verifier::rlimit(100)]
#[verifier::spinoff_prover]
proof fn lemma_rt_action_set_producing(a: GameActionTypeModel, s: Seq<u8>, i: int)
    requires
        0 <= i,
        i + spec_ser_action(a).len() <= s.len(),
        s.subrange(i, i + spec_ser_action(a).len()) == spec_ser_action(a),
        spec_action_len_ok(a),
        a matches GameActionTypeModel::SetProducing { .. },
    ensures
        spec_parse_action(s, i) == Some((a, i + spec_ser_action(a).len())),
{
    reveal(spec_ser_action);
    reveal(spec_parse_action);
    match a {
        GameActionTypeModel::SetProducing { city_id, producing } => {
            assert(spec_ser_action(a) =~= seq![4u8] + (spec_ser_u16(city_id.0)
                + spec_ser_producing(producing)));
            lemma_split(s, i, seq![4u8], spec_ser_u16(city_id.0) + spec_ser_producing(producing));
            lemma_rt_u8(4u8, s, i);
            lemma_split(s, i + 1, spec_ser_u16(city_id.0), spec_ser_producing(producing));
            lemma_rt_u16(city_id.0, s, i + 1);
            lemma_rt_producing(producing, s, i + 3);
        },
        _ => {},
    }
}



#[verifier::rlimit(100)]
#[verifier::spinoff_prover]
proof fn lemma_rt_action_set_sleeping(a: GameActionTypeModel, s: Seq<u8>, i: int)
    requires
        0 <= i,
        i + spec_ser_action(a).len() <= s.len(),
        s.subrange(i, i + spec_ser_action(a).len()) == spec_ser_action(a),
        a matches GameActionTypeModel::SetSleeping { .. },
    ensures
        spec_parse_action(s, i) == Some((a, i + spec_ser_action(a).len())),
{
    reveal(spec_ser_action);
    reveal(spec_parse_action);
    match a {
        GameActionTypeModel::SetSleeping { unit_id, sleeping } => {
            assert(spec_ser_action(a) =~= seq![5u8] + (spec_ser_u16(unit_id.0) + spec_ser_bool(
                sleeping,
            )));
            lemma_split(s, i, seq![5u8], spec_ser_u16(unit_id.0) + spec_ser_bool(sleeping));
            lemma_rt_u8(5u8, s, i);
            lemma_split(s, i + 1, spec_ser_u16(unit_id.0), spec_ser_bool(sleeping));
            lemma_rt_u16(unit_id.0, s, i + 1);
            lemma_rt_bool(sleeping, s, i + 3);
        },
        _ => {},
    }
}

#[verifier::rlimit(100)]
#[verifier::spinoff_prover]
proof fn lemma_rt_action_set_citizen_locked(a: GameActionTypeModel, s: Seq<u8>, i: int)
    requires
        0 <= i,
        i + spec_ser_action(a).len() <= s.len(),
        s.subrange(i, i + spec_ser_action(a).len()) == spec_ser_action(a),
        a matches GameActionTypeModel::SetCitizenLocked { .. },
    ensures
        spec_parse_action(s, i) == Some((a, i + spec_ser_action(a).len())),
{
    reveal(spec_ser_action);
    reveal(spec_parse_action);
    match a {
        GameActionTypeModel::SetCitizenLocked { city_id, position, locked } => {
            assert(spec_ser_action(a) =~= seq![6u8] + (spec_ser_u16(city_id.0) + (spec_ser_pos(
                position,
            ) + spec_ser_bool(locked))));
            lemma_split(
                s,
                i,
                seq![6u8],
                spec_ser_u16(city_id.0) + (spec_ser_pos(position) + spec_ser_bool(locked)),
            );
            lemma_rt_u8(6u8, s, i);
            lemma_split(
                s,
                i + 1,
                spec_ser_u16(city_id.0),
                spec_ser_pos(position) + spec_ser_bool(locked),
            );
            lemma_rt_u16(city_id.0, s, i + 1);
            lemma_split(s, i + 3, spec_ser_pos(position), spec_ser_bool(locked));
            lemma_rt_pos(position, s, i + 3);
            lemma_rt_bool(locked, s, i + 7);
        },
        _ => {},
    }
}

#[verifier::rlimit(100)]
#[verifier::spinoff_prover]
proof fn lemma_rt_action_harvest(a: GameActionTypeModel, s: Seq<u8>, i: int)
    requires
        0 <= i,
        i + spec_ser_action(a).len() <= s.len(),
        s.subrange(i, i + spec_ser_action(a).len()) == spec_ser_action(a),
        a matches GameActionTypeModel::Harvest { .. },
    ensures
        spec_parse_action(s, i) == Some((a, i + spec_ser_action(a).len())),
{
    reveal(spec_ser_action);
    reveal(spec_parse_action);
    match a {
        GameActionTypeModel::Harvest { unit_id } => {
            lemma_split(s, i, seq![7u8], spec_ser_u16(unit_id.0));
            lemma_rt_u8(7u8, s, i);
            lemma_rt_u16(unit_id.0, s, i + 1);
        },
        _ => {},
    }
}

#[verifier::rlimit(100)]
#[verifier::spinoff_prover]
proof fn lemma_rt_action_set_research(a: GameActionTypeModel, s: Seq<u8>, i: int)
    requires
        0 <= i,
        i + spec_ser_action(a).len() <= s.len(),
        s.subrange(i, i + spec_ser_action(a).len()) == spec_ser_action(a),
        a matches GameActionTypeModel::SetResearch { .. },
    ensures
        spec_parse_action(s, i) == Some((a, i + spec_ser_action(a).len())),
{
    reveal(spec_ser_action);
    reveal(spec_parse_action);
    match a {
        GameActionTypeModel::SetResearch { tech_id } => {
            lemma_split(s, i, seq![8u8], spec_ser_u8(tech_id.0));
            lemma_rt_u8(8u8, s, i);
            lemma_rt_u8(tech_id.0, s, i + 1);
        },
        _ => {},
    }
}


// ----- events -----
/// The byte encoding of an event: a tag byte and the fields in order.
#[verifier::opaque]
pub open spec fn spec_ser_event(e: GameEventTypeModel) -> Seq<u8> {
    match e {
        GameEventTypeModel::NextTurn => seq![0u8],
        GameEventTypeModel::MoveUnit { unit_id, position, remaining_movement } => seq![1u8]
            + spec_ser_u16(unit_id.0) + spec_ser_pos(position) + spec_ser_i16(remaining_movement),
        GameEventTypeModel::DeleteUnit { unit_id } => seq![2u8] + spec_ser_u16(unit_id.0),
        GameEventTypeModel::FoundCity { position, owner } => seq![3u8] + spec_ser_pos(position)
            + spec_ser_u8(owner.0),
        GameEventTypeModel::RenameCity { city_id, name } => seq![4u8] + spec_ser_u16(city_id.0)
            + spec_ser_string(name),
        GameEventTypeModel::SetPlayerReady { player_id, ready } => seq![5u8] + spec_ser_u8(
            player_id.0,
        ) + spec_ser_bool(ready),
        GameEventTypeModel::SetProducing { city_id, producing } => seq![6u8] + spec_ser_u16(
            city_id.0,
        ) + spec_ser_producing(producing),
        GameEventTypeModel::NewUnit { template, owner, position, unit_id } => seq![7u8]
            + spec_ser_template(template) + spec_ser_u8(owner.0) + spec_ser_pos(position)
            + spec_ser_u16(unit_id.0),
        GameEventTypeModel::NewBuilding { building_type_id, city_id } => seq![8u8] + spec_ser_u16(
            building_type_id.0,
        ) + spec_ser_u16(city_id.0),
        GameEventTypeModel::Crash { message } => seq![9u8] + spec_ser_string(message),
        GameEventTypeModel::SetSleeping { unit_id, sleeping } => seq![10u8] + spec_ser_u16(
            unit_id.0,
        ) + spec_ser_bool(sleeping),
        GameEventTypeModel::SetCitizenLocked { city_id, position, locked } => seq![11u8]
            + spec_ser_u16(city_id.0) + spec_ser_pos(position) + spec_ser_bool(locked),
        GameEventTypeModel::IncreasePopulationFromFood { city_id } => seq![12u8] + spec_ser_u16(
            city_id.0,
        ),
        GameEventTypeModel::AddTerritoryToCity { city_id, position } => seq![13u8] + spec_ser_u16(
            city_id.0,
        ) + spec_ser_pos(position),
        GameEventTypeModel::Harvest { position } => seq![14u8] + spec_ser_pos(position),
        GameEventTypeModel::DepleteMovement { unit_id } => seq![15u8] + spec_ser_u16(unit_id.0),
        GameEventTypeModel::UseCharge { unit_id } => seq![16u8] + spec_ser_u16(unit_id.0),
        GameEventTypeModel::FinishResearch { civilization_id } => seq![17u8] + spec_ser_u8(
            civilization_id.0,
        ),
        GameEventTypeModel::SetResearch { civilization_id, tech_id } => seq![18u8] + spec_ser_u8(
            civilization_id.0,
        ) + spec_ser_u8(tech_id.0),
    }
}

/// The event a byte string encodes from position `i`, with the position
/// after it.
#[verifier::opaque]
pub open spec fn spec_parse_event(s: Seq<u8>, i: int) -> Option<(GameEventTypeModel, int)> {
    match spec_parse_u8(s, i) {
        None => None,
        Some((tag, j)) => if tag == 0 {
            Some((GameEventTypeModel::NextTurn, j))
        } else if tag == 1 {
            match spec_parse_u16(s, j) {
                Some((u, j1)) => match spec_parse_pos(s, j1) {
                    Some((p, j2)) => match spec_parse_i16(s, j2) {
                        Some((rm, j3)) => Some(
                            (
                                GameEventTypeModel::MoveUnit {
                                    unit_id: UnitId(u),
                                    position: p,
                                    remaining_movement: rm,
                                },
                                j3,
                            ),
                        ),
                        None => None,
                    },
                    None => None,
                },
                None => None,
            }
        } else if tag == 2 {
            match spec_parse_u16(s, j) {
                Some((u, j1)) => Some((GameEventTypeModel::DeleteUnit { unit_id: UnitId(u) }, j1)),
                None => None,
            }
        } else if tag == 3 {
            match spec_parse_pos(s, j) {
                Some((p, j1)) => match spec_parse_u8(s, j1) {
                    Some((o, j2)) => Some(
                        (
                            GameEventTypeModel::FoundCity {
                                position: p,
                                owner: CivilizationId(o),
                            },
                            j2,
                        ),
                    ),
                    None => None,
                },
                None => None,
            }
        } else if tag == 4 {
            match spec_parse_u16(s, j) {
                Some((c, j1)) => match spec_parse_string(s, j1) {
                    Some((name, j2)) => Some(
                        (GameEventTypeModel::RenameCity { city_id: CityId(c), name }, j2),
                    ),
                    None => None,
                },
                None => None,
            }
        } else if tag == 5 {
            match spec_parse_u8(s, j) {
                Some((p, j1)) => match spec_parse_bool(s, j1) {
                    Some((b, j2)) => Some(
                        (
                            GameEventTypeModel::SetPlayerReady {
                                player_id: PlayerId(p),
                                ready: b,
                            },
                            j2,
                        ),
                    ),
                    None => None,
                },
                None => None,
            }
        } else if tag == 6 {
            match spec_parse_u16(s, j) {
                Some((c, j1)) => match spec_parse_producing(s, j1) {
                    Some((p, j2)) => Some(
                        (
                            GameEventTypeModel::SetProducing {
                                city_id: CityId(c),
                                producing: p,
                            },
                            j2,
                        ),
                    ),
                    None => None,
                },
                None => None,
            }
        } else if tag == 7 {
            match spec_parse_template(s, j) {
                Some((t, j1)) => match spec_parse_u8(s, j1) {
                    Some((o, j2)) => match spec_parse_pos(s, j2) {
                        Some((p, j3)) => match spec_parse_u16(s, j3) {
                            Some((u, j4)) => Some(
                                (
                                    GameEventTypeModel::NewUnit {
                                        template: t,
                                        owner: CivilizationId(o),
                                        position: p,
                                        unit_id: UnitId(u),
                                    },
                                    j4,
                                ),
                            ),
                            None => None,
                        },
                        None => None,
                    },
                    None => None,
                },
                None => None,
            }
        } else if tag == 8 {
            match spec_parse_u16(s, j) {
                Some((b, j1)) => match spec_parse_u16(s, j1) {
                    Some((c, j2)) => Some(
                        (
                            GameEventTypeModel::NewBuilding {
                                building_type_id: crate::building::BuildingTypeId(b),
                                city_id: CityId(c),
                            },
                            j2,
                        ),
                    ),
                    None => None,
                },
                None => None,
            }
        } else if tag == 9 {
            match spec_parse_string(s, j) {
                Some((m, j1)) => Some((GameEventTypeModel::Crash { message: m }, j1)),
                None => None,
            }
        } else if tag == 10 {
            match spec_parse_u16(s, j) {
                Some((u, j1)) => match spec_parse_bool(s, j1) {
                    Some((b, j2)) => Some(
                        (
                            GameEventTypeModel::SetSleeping {
                                unit_id: UnitId(u),
                                sleeping: b,
                            },
                            j2,
                        ),
                    ),
                    None => None,
                },
                None => None,
            }
        } else if tag == 11 {
            match spec_parse_u16(s, j) {
                Some((c, j1)) => match spec_parse_pos(s, j1) {
                    Some((p, j2)) => match spec_parse_bool(s, j2) {
                        Some((b, j3)) => Some(
                            (
                                GameEventTypeModel::SetCitizenLocked {
                                    city_id: CityId(c),
                                    position: p,
                                    locked: b,
                                },
                                j3,
                            ),
                        ),
                        None => None,
                    },
                    None => None,
                },
                None => None,
            }
        } else if tag == 12 {
            match spec_parse_u16(s, j) {
                Some((c, j1)) => Some(
                    (GameEventTypeModel::IncreasePopulationFromFood { city_id: CityId(c) }, j1),
                ),
                None => None,
            }
        } else if tag == 13 {
            match spec_parse_u16(s, j) {
                Some((c, j1)) => match spec_parse_pos(s, j1) {
                    Some((p, j2)) => Some(
                        (
                            GameEventTypeModel::AddTerritoryToCity {
                                city_id: CityId(c),
                                position: p,
                            },
                            j2,
                        ),
                    ),
                    None => None,
                },
                None => None,
            }
        } else if tag == 14 {
            match spec_parse_pos(s, j) {
                Some((p, j1)) => Some((GameEventTypeModel::Harvest { position: p }, j1)),
                None => None,
            }
        } else if tag == 15 {
            match spec_parse_u16(s, j) {
                Some((u, j1)) => Some(
                    (GameEventTypeModel::DepleteMovement { unit_id: UnitId(u) }, j1),
                ),
                None => None,
            }
        } else if tag == 16 {
            match spec_parse_u16(s, j) {
                Some((u, j1)) => Some((GameEventTypeModel::UseCharge { unit_id: UnitId(u) }, j1)),
                None => None,
            }
        } else if tag == 17 {
            match spec_parse_u8(s, j) {
                Some((c, j1)) => Some(
                    (
                        GameEventTypeModel::FinishResearch {
                            civilization_id: CivilizationId(c),
                        },
                        j1,
                    ),
                ),
                None => None,
            }
        } else if tag == 18 {
            match spec_parse_u8(s, j) {
                Some((c, j1)) => match spec_parse_u8(s, j1) {
                    Some((t, j2)) => Some(
                        (
                            GameEventTypeModel::SetResearch {
                                civilization_id: CivilizationId(c),
                                tech_id: TechId(t),
                            },
                            j2,
                        ),
                    ),
                    None => None,
                },
                None => None,
            }
        } else {
            None
        },
    }
}

/// Encode one event as a self-delimiting record.
#[verifier::rlimit(100)]
#[verifier::spinoff_prover]
pub fn encode_event(e: &GameEventType) -> (r: Vec<u8>)
    requires
        spec_ser_event(e.model()).len() <= usize::MAX,
    ensures
        r@ == spec_ser_event(e.model()),
{
    proof {
        reveal(spec_ser_event);
        reveal(spec_ser_string);
        reveal(spec_ser_producing);
        reveal(spec_ser_template);
    }
    let mut out: Vec<u8> = Vec::new();
    match e {
        GameEventType::NextTurn => {
            ser_u8(&mut out, 0);
        },
        GameEventType::MoveUnit { unit_id, position, remaining_movement } => {
            ser_u8(&mut out, 1);
            ser_u16(&mut out, unit_id.0);
            ser_pos(&mut out, *position);
            ser_i16(&mut out, *remaining_movement);
        },
        GameEventType::DeleteUnit { unit_id } => {
            ser_u8(&mut out, 2);
            ser_u16(&mut out, unit_id.0);
        },
        GameEventType::FoundCity { position, owner } => {
            ser_u8(&mut out, 3);
            ser_pos(&mut out, *position);
            ser_u8(&mut out, owner.0);
        },
        GameEventType::RenameCity { city_id, name } => {
            ser_u8(&mut out, 4);
            ser_u16(&mut out, city_id.0);
            ser_string(&mut out, name);
        },
        GameEventType::SetPlayerReady { player_id, ready } => {
            ser_u8(&mut out, 5);
            ser_u8(&mut out, player_id.0);
            ser_bool(&mut out, *ready);
        },
        GameEventType::SetProducing { city_id, producing } => {
            ser_u8(&mut out, 6);
            ser_u16(&mut out, city_id.0);
            ser_producing(&mut out, producing);
        },
        GameEventType::NewUnit { template, owner, position, unit_id } => {
            ser_u8(&mut out, 7);
            ser_template(&mut out, template);
            ser_u8(&mut out, owner.0);
            ser_pos(&mut out, *position);
            ser_u16(&mut out, unit_id.0);
        },
        GameEventType::NewBuilding { building_type_id, city_id } => {
            ser_u8(&mut out, 8);
            ser_u16(&mut out, building_type_id.0);
            ser_u16(&mut out, city_id.0);
        },
        GameEventType::Crash { message } => {
            ser_u8(&mut out, 9);
            ser_string(&mut out, message);
        },
        GameEventType::SetSleeping { unit_id, sleeping } => {
            ser_u8(&mut out, 10);
            ser_u16(&mut out, unit_id.0);
            ser_bool(&mut out, *sleeping);
        },
        GameEventType::SetCitizenLocked { city_id, position, locked } => {
            ser_u8(&mut out, 11);
            ser_u16(&mut out, city_id.0);
            ser_pos(&mut out, *position);
            ser_bool(&mut out, *locked);
        },
        GameEventType::IncreasePopulationFromFood { city_id } => {
            ser_u8(&mut out, 12);
            ser_u16(&mut out, city_id.0);
        },
        GameEventType::AddTerritoryToCity { city_id, position } => {
            ser_u8(&mut out, 13);
            ser_u16(&mut out, city_id.0);
            ser_pos(&mut out, *position);
        },
        GameEventType::Harvest { position } => {
            ser_u8(&mut out, 14);
            ser_pos(&mut out, *position);
        },
        GameEventType::DepleteMovement { unit_id } => {
            ser_u8(&mut out, 15);
            ser_u16(&mut out, unit_id.0);
        },
        GameEventType::UseCharge { unit_id } => {
            ser_u8(&mut out, 16);
            ser_u16(&mut out, unit_id.0);
        },
        GameEventType::FinishResearch { civilization_id } => {
            ser_u8(&mut out, 17);
            ser_u8(&mut out, civilization_id.0);
        },
        GameEventType::SetResearch { civilization_id, tech_id } => {
            ser_u8(&mut out, 18);
            ser_u8(&mut out, civilization_id.0);
            ser_u8(&mut out, tech_id.0);
        },
    }
    proof {
        assert(out@ =~= spec_ser_event(e.model()));
    }
    out
}

/// Decode one event from a byte string, from position `i`.
/// Decode one event from a byte string, from position `i`.
pub fn decode_event(s: &Vec<u8>, i: usize) -> (r: Option<(GameEventType, usize)>)
    ensures
        match r {
            Some((v, j)) => spec_parse_event(s@, i as int) == Some((v.model(), j as int)),
            None => spec_parse_event(s@, i as int) is None,
        },
{
    proof { reveal(spec_parse_event); }
    let (tag, _) = match parse_u8(s, i) {
        Some(v) => v,
        None => { return None; },
    };
    if tag < 10 {
        decode_event_head(s, i)
    } else {
        decode_event_tail(s, i)
    }
}

#[verifier::rlimit(100)]
#[verifier::spinoff_prover]
fn decode_event_head(s: &Vec<u8>, i: usize) -> (r: Option<(GameEventType, usize)>)
    requires
        match spec_parse_u8(s@, i as int) {
            Some((t, _)) => t < 10,
            None => false,
        },
    ensures
        match r {
            Some((v, j)) => spec_parse_event(s@, i as int) == Some((v.model(), j as int)),
            None => spec_parse_event(s@, i as int) is None,
        },
{
    proof { reveal(spec_parse_event); }
    let (tag, j) = match parse_u8(s, i) {
        Some(v) => v,
        None => { return None; },
    };
    if tag == 0 {
        Some((GameEventType::NextTurn, j))
    } else if tag == 1 {
        let (u, j1) = match parse_u16(s, j) {
            Some(v) => v,
            None => { return None; },
        };
        let (p, j2) = match parse_pos(s, j1) {
            Some(v) => v,
            None => { return None; },
        };
        let (rm, j3) = match parse_i16(s, j2) {
            Some(v) => v,
            None => { return None; },
        };
        Some(
            (
                GameEventType::MoveUnit {
                    unit_id: UnitId(u),
                    position: p,
                    remaining_movement: rm,
                },
                j3,
            ),
        )
    } else if tag == 2 {
        let (u, j1) = match parse_u16(s, j) {
            Some(v) => v,
            None => { return None; },
        };
        Some((GameEventType::DeleteUnit { unit_id: UnitId(u) }, j1))
    } else if tag == 3 {
        let (p, j1) = match parse_pos(s, j) {
            Some(v) => v,
            None => { return None; },
        };
        let (o, j2) = match parse_u8(s, j1) {
            Some(v) => v,
            None => { return None; },
        };
        Some((GameEventType::FoundCity { position: p, owner: CivilizationId(o) }, j2))
    } else if tag == 4 {
        let (c, j1) = match parse_u16(s, j) {
            Some(v) => v,
            None => { return None; },
        };
        let (name, j2) = match parse_string(s, j1) {
            Some(v) => v,
            None => { return None; },
        };
        Some((GameEventType::RenameCity { city_id: CityId(c), name }, j2))
    } else if tag == 5 {
        let (p, j1) = match parse_u8(s, j) {
            Some(v) => v,
            None => { return None; },
        };
        let (b, j2) = match parse_bool(s, j1) {
            Some(v) => v,
            None => { return None; },
        };
        Some((GameEventType::SetPlayerReady { player_id: PlayerId(p), ready: b }, j2))
    } else if tag == 6 {
        let (c, j1) = match parse_u16(s, j) {
            Some(v) => v,
            None => { return None; },
        };
        let (p, j2) = match parse_producing(s, j1) {
            Some(v) => v,
            None => { return None; },
        };
        Some((GameEventType::SetProducing { city_id: CityId(c), producing: p }, j2))
    } else if tag == 7 {
        let (t, j1) = match parse_template(s, j) {
            Some(v) => v,
            None => { return None; },
        };
        let (o, j2) = match parse_u8(s, j1) {
            Some(v) => v,
            None => { return None; },
        };
        let (p, j3) = match parse_pos(s, j2) {
            Some(v) => v,
            None => { return None; },
        };
        let (u, j4) = match parse_u16(s, j3) {
            Some(v) => v,
            None => { return None; },
        };
        Some(
            (
                GameEventType::NewUnit {
                    template: t,
                    owner: CivilizationId(o),
                    position: p,
                    unit_id: UnitId(u),
                },
                j4,
            ),
        )
    } else if tag == 8 {
        let (b, j1) = match parse_u16(s, j) {
            Some(v) => v,
            None => { return None; },
        };
        let (c, j2) = match parse_u16(s, j1) {
            Some(v) => v,
            None => { return None; },
        };
        Some(
            (
                GameEventType::NewBuilding {
                    building_type_id: crate::building::BuildingTypeId(b),
                    city_id: CityId(c),
                },
                j2,
            ),
        )
    } else if tag == 9 {
        let (m, j1) = match parse_string(s, j) {
            Some(v) => v,
            None => { return None; },
        };
        Some((GameEventType::Crash { message: m }, j1))
    } else {
        None
    }
}

#[verifier::rlimit(100)]
#[verifier::spinoff_prover]
fn decode_event_tail(s: &Vec<u8>, i: usize) -> (r: Option<(GameEventType, usize)>)
    requires
        match spec_parse_u8(s@, i as int) {
            Some((t, _)) => t >= 10,
            None => false,
        },
    ensures
        match r {
            Some((v, j)) => spec_parse_event(s@, i as int) == Some((v.model(), j as int)),
            None => spec_parse_event(s@, i as int) is None,
        },
{
    proof { reveal(spec_parse_event); }
    let (tag, j) = match parse_u8(s, i) {
        Some(v) => v,
        None => { return None; },
    };
    if tag < 10 {
        None
    } else if tag == 10 {
        let (u, j1) = match parse_u16(s, j) {
            Some(v) => v,
            None => { return None; },
        };
        let (b, j2) = match parse_bool(s, j1) {
            Some(v) => v,
            None => { return None; },
        };
        Some((GameEventType::SetSleeping { unit_id: UnitId(u), sleeping: b }, j2))
    } else if tag == 11 {
        let (c, j1) = match parse_u16(s, j) {
            Some(v) => v,
            None => { return None; },
        };
        let (p, j2) = match parse_pos(s, j1) {
            Some(v) => v,
            None => { return None; },
        };
        let (b, j3) = match parse_bool(s, j2) {
            Some(v) => v,
            None => { return None; },
        };
        Some(
            (GameEventType::SetCitizenLocked { city_id: CityId(c), position: p, locked: b }, j3),
        )
    } else if tag == 12 {
        let (c, j1) = match parse_u16(s, j) {
            Some(v) => v,
            None => { return None; },
        };
        Some((GameEventType::IncreasePopulationFromFood { city_id: CityId(c) }, j1))
    } else if tag == 13 {
        let (c, j1) = match parse_u16(s, j) {
            Some(v) => v,
            None => { return None; },
        };
        let (p, j2) = match parse_pos(s, j1) {
            Some(v) => v,
            None => { return None; },
        };
        Some((GameEventType::AddTerritoryToCity { city_id: CityId(c), position: p }, j2))
    } else if tag == 14 {
        let (p, j1) = match parse_pos(s, j) {
            Some(v) => v,
            None => { return None; },
        };
        Some((GameEventType::Harvest { position: p }, j1))
    } else if tag == 15 {
        let (u, j1) = match parse_u16(s, j) {
            Some(v) => v,
            None => { return None; },
        };
        Some((GameEventType::DepleteMovement { unit_id: UnitId(u) }, j1))
    } else if tag == 16 {
        let (u, j1) = match parse_u16(s, j) {
            Some(v) => v,
            None => { return None; },
        };
        Some((GameEventType::UseCharge { unit_id: UnitId(u) }, j1))
    } else if tag == 17 {
        let (c, j1) = match parse_u8(s, j) {
            Some(v) => v,
            None => { return None; },
        };
        Some((GameEventType::FinishResearch { civilization_id: CivilizationId(c) }, j1))
    } else if tag == 18 {
        let (c, j1) = match parse_u8(s, j) {
            Some(v) => v,
            None => { return None; },
        };
        let (t, j2) = match parse_u8(s, j1) {
            Some(v) => v,
            None => { return None; },
        };
        Some(
            (
                GameEventType::SetResearch {
                    civilization_id: CivilizationId(c),
                    tech_id: TechId(t),
                },
                j2,
            ),
        )
    } else {
        None
    }
}



#[verifier::rlimit(100)]
#[verifier::spinoff_prover]
proof fn lemma_rt_event_next_turn(e: GameEventTypeModel, s: Seq<u8>, i: int)
    requires
        0 <= i,
        i + spec_ser_event(e).len() <= s.len(),
        s.subrange(i, i + spec_ser_event(e).len()) == spec_ser_event(e),
        e matches GameEventTypeModel::NextTurn,
    ensures
        spec_parse_event(s, i) == Some((e, i + spec_ser_event(e).len())),
{
    reveal(spec_ser_event);
    reveal(spec_parse_event);
    match e {
        GameEventTypeModel::NextTurn => {
            lemma_rt_u8(0u8, s, i);
        },
        _ => {},
    }
}

#[verifier::rlimit(100)]
#[verifier::spinoff_prover]
proof fn lemma_rt_event_move_unit(e: GameEventTypeModel, s: Seq<u8>, i: int)
    requires
        0 <= i,
        i + spec_ser_event(e).len() <= s.len(),
        s.subrange(i, i + spec_ser_event(e).len()) == spec_ser_event(e),
        e matches GameEventTypeModel::MoveUnit { .. },
    ensures
        spec_parse_event(s, i) == Some((e, i + spec_ser_event(e).len())),
{
    reveal(spec_ser_event);
    reveal(spec_parse_event);
    match e {
        GameEventTypeModel::MoveUnit { unit_id, position, remaining_movement } => {
            assert(spec_ser_event(e) =~= seq![1u8] + (spec_ser_u16(unit_id.0) + (spec_ser_pos(
                position,
            ) + spec_ser_i16(remaining_movement))));
            lemma_split(
                s,
                i,
                seq![1u8],
                spec_ser_u16(unit_id.0) + (spec_ser_pos(position) + spec_ser_i16(
                    remaining_movement,
                )),
            );
            lemma_rt_u8(1u8, s, i);
            lemma_split(
                s,
                i + 1,
                spec_ser_u16(unit_id.0),
                spec_ser_pos(position) + spec_ser_i16(remaining_movement),
            );
            lemma_rt_u16(unit_id.0, s, i + 1);
            lemma_split(s, i + 3, spec_ser_pos(position), spec_ser_i16(remaining_movement));
            lemma_rt_pos(position, s, i + 3);
            lemma_rt_i16(remaining_movement, s, i + 7);
        },
        _ => {},
    }
}

#[verifier::rlimit(100)]
#[verifier::spinoff_prover]
proof fn lemma_rt_event_delete_unit(e: GameEventTypeModel, s: Seq<u8>, i: int)
    requires
        0 <= i,
        i + spec_ser_event(e).len() <= s.len(),
        s.subrange(i, i + spec_ser_event(e).len()) == spec_ser_event(e),
        e matches GameEventTypeModel::DeleteUnit { .. },
    ensures
        spec_parse_event(s, i) == Some((e, i + spec_ser_event(e).len())),
{
    reveal(spec_ser_event);
    reveal(spec_parse_event);
    match e {
        GameEventTypeModel::DeleteUnit { unit_id } => {
            lemma_split(s, i, seq![2u8], spec_ser_u16(unit_id.0));
            lemma_rt_u8(2u8, s, i);
            lemma_rt_u16(unit_id.0, s, i + 1);
        },
        _ => {},
    }
}

#[verifier::rlimit(100)]
#[verifier::spinoff_prover]
proof fn lemma_rt_event_found_city(e: GameEventTypeModel, s: Seq<u8>, i: int)
    requires
        0 <= i,
        i + spec_ser_event(e).len() <= s.len(),
        s.subrange(i, i + spec_ser_event(e).len()) == spec_ser_event(e),
        e matches GameEventTypeModel::FoundCity { .. },
    ensures
        spec_parse_event(s, i) == Some((e, i + spec_ser_event(e).len())),
{
    reveal(spec_ser_event);
    reveal(spec_parse_event);
    match e {
        GameEventTypeModel::FoundCity { position, owner } => {
            assert(spec_ser_event(e) =~= seq![3u8] + (spec_ser_pos(position) + spec_ser_u8(
                owner.0,
            )));
            lemma_split(s, i, seq![3u8], spec_ser_pos(position) + spec_ser_u8(owner.0));
            lemma_rt_u8(3u8, s, i);
            lemma_split(s, i + 1, spec_ser_pos(position), spec_ser_u8(owner.0));
            lemma_rt_pos(position, s, i + 1);
            lemma_rt_u8(owner.0, s, i + 5);
        },
        _ => {},
    }
}

#[verifier::rlimit(100)]
#[verifier::spinoff_prover]
proof fn lemma_rt_event_rename_city(e: GameEventTypeModel, s: Seq<u8>, i: int)
    requires
        0 <= i,
        i + spec_ser_event(e).len() <= s.len(),
        s.subrange(i, i + spec_ser_event(e).len()) == spec_ser_event(e),
        spec_event_len_ok(e),
        e matches GameEventTypeModel::RenameCity { .. },
    ensures
        spec_parse_event(s, i) == Some((e, i + spec_ser_event(e).len())),
{
    reveal(spec_ser_event);
    reveal(spec_parse_event);
    match e {
        GameEventTypeModel::RenameCity { city_id, name } => {
            assert(spec_ser_event(e) =~= seq![4u8] + (spec_ser_u16(city_id.0) + spec_ser_string(
                name,
            )));
            lemma_split(s, i, seq![4u8], spec_ser_u16(city_id.0) + spec_ser_string(name));
            lemma_rt_u8(4u8, s, i);
            lemma_split(s, i + 1, spec_ser_u16(city_id.0), spec_ser_string(name));
            lemma_rt_u16(city_id.0, s, i + 1);
            lemma_rt_string(name, s, i + 3);
        },
        _ => {},
    }
}

#[verifier::rlimit(100)]
#[verifier::spinoff_prover]
proof fn lemma_rt_event_set_player_ready(e: GameEventTypeModel, s: Seq<u8>, i: int)
    requires
        0 <= i,
        i + spec_ser_event(e).len() <= s.len(),
        s.subrange(i, i + spec_ser_event(e).len()) == spec_ser_event(e),
        e matches GameEventTypeModel::SetPlayerReady { .. },
    ensures
        spec_parse_event(s, i) == Some((e, i + spec_ser_event(e).len())),
{
    reveal(spec_ser_event);
    reveal(spec_parse_event);
    match e {
        GameEventTypeModel::SetPlayerReady { player_id, ready } => {
            assert(spec_ser_event(e) =~= seq![5u8] + (spec_ser_u8(player_id.0) + spec_ser_bool(
                ready,
            )));
            lemma_split(s, i, seq![5u8], spec_ser_u8(player_id.0) + spec_ser_bool(ready));
            lemma_rt_u8(5u8, s, i);
            lemma_split(s, i + 1, spec_ser_u8(player_id.0), spec_ser_bool(ready));
            lemma_rt_u8(player_id.0, s, i + 1);
            lemma_rt_bool(ready, s, i + 2);
        },
        _ => {},
    }
}



#[verifier::rlimit(100)]
#[verifier::spinoff_prover]
proof fn lemma_rt_event_set_producing(e: GameEventTypeModel, s: Seq<u8>, i: int)
    requires
        0 <= i,
        i + spec_ser_event(e).len() <= s.len(),
        s.subrange(i, i + spec_ser_event(e).len()) == spec_ser_event(e),
        spec_event_len_ok(e),
        e matches GameEventTypeModel::SetProducing { .. },
    ensures
        spec_parse_event(s, i) == Some((e, i + spec_ser_event(e).len())),
{
    reveal(spec_ser_event);
    reveal(spec_parse_event);
    match e {
        GameEventTypeModel::SetProducing { city_id, producing } => {
            assert(spec_ser_event(e) =~= seq![6u8] + (spec_ser_u16(city_id.0)
                + spec_ser_producing(producing)));
            lemma_split(s, i, seq![6u8], spec_ser_u16(city_id.0) + spec_ser_producing(producing));
            lemma_rt_u8(6u8, s, i);
            lemma_split(s, i + 1, spec_ser_u16(city_id.0), spec_ser_producing(producing));
            lemma_rt_u16(city_id.0, s, i + 1);
            lemma_rt_producing(producing, s, i + 3);
        },
        _ => {},
    }
}

#[verifier::rlimit(100)]
#[verifier::spinoff_prover]
proof fn lemma_rt_event_new_unit(e: GameEventTypeModel, s: Seq<u8>, i: int)
    requires
        0 <= i,
        i + spec_ser_event(e).len() <= s.len(),
        s.subrange(i, i + spec_ser_event(e).len()) == spec_ser_event(e),
        spec_event_len_ok(e),
        e matches GameEventTypeModel::NewUnit { .. },
    ensures
        spec_parse_event(s, i) == Some((e, i + spec_ser_event(e).len())),
{
    reveal(spec_ser_event);
    reveal(spec_parse_event);
    match e {
        GameEventTypeModel::NewUnit { template, owner, position, unit_id } => {
            assert(spec_ser_event(e) =~= seq![7u8] + (spec_ser_template(template) + (spec_ser_u8(
                owner.0,
            ) + (spec_ser_pos(position) + spec_ser_u16(unit_id.0)))));
            lemma_split(
                s,
                i,
                seq![7u8],
                spec_ser_template(template) + (spec_ser_u8(owner.0) + (spec_ser_pos(position)
                    + spec_ser_u16(unit_id.0))),
            );
            lemma_rt_u8(7u8, s, i);
            lemma_split(
                s,
                i + 1,
                spec_ser_template(template),
                spec_ser_u8(owner.0) + (spec_ser_pos(position) + spec_ser_u16(unit_id.0)),
            );
            lemma_rt_template(template, s, i + 1);
            let i2 = i + 1 + spec_ser_template(template).len();
            lemma_split(
                s,
                i2,
                spec_ser_u8(owner.0),
                spec_ser_pos(position) + spec_ser_u16(unit_id.0),
            );
            lemma_rt_u8(owner.0, s, i2);
            lemma_split(s, i2 + 1, spec_ser_pos(position), spec_ser_u16(unit_id.0));
            lemma_rt_pos(position, s, i2 + 1);
            lemma_rt_u16(unit_id.0, s, i2 + 5);
        },
        _ => {},
    }
}

#[verifier::rlimit(100)]
#[verifier::spinoff_prover]
proof fn lemma_rt_event_new_building(e: GameEventTypeModel, s: Seq<u8>, i: int)
    requires
        0 <= i,
        i + spec_ser_event(e).len() <= s.len(),
        s.subrange(i, i + spec_ser_event(e).len()) == spec_ser_event(e),
        e matches GameEventTypeModel::NewBuilding { .. },
    ensures
        spec_parse_event(s, i) == Some((e, i + spec_ser_event(e).len())),
{
    reveal(spec_ser_event);
    reveal(spec_parse_event);
    match e {
        GameEventTypeModel::NewBuilding { building_type_id, city_id } => {
            assert(spec_ser_event(e) =~= seq![8u8] + (spec_ser_u16(building_type_id.0)
                + spec_ser_u16(city_id.0)));
            lemma_split(
                s,
                i,
                seq![8u8],
                spec_ser_u16(building_type_id.0) + spec_ser_u16(city_id.0),
            );
            lemma_rt_u8(8u8, s, i);
            lemma_split(s, i + 1, spec_ser_u16(building_type_id.0), spec_ser_u16(city_id.0));
            lemma_rt_u16(building_type_id.0, s, i + 1);
            lemma_rt_u16(city_id.0, s, i + 3);
        },
        _ => {},
    }
}

#[verifier::rlimit(100)]
#[verifier::spinoff_prover]
proof fn lemma_rt_event_crash(e: GameEventTypeModel, s: Seq<u8>, i: int)
    requires
        0 <= i,
        i + spec_ser_event(e).len() <= s.len(),
        s.subrange(i, i + spec_ser_event(e).len()) == spec_ser_event(e),
        spec_event_len_ok(e),
        e matches GameEventTypeModel::Crash { .. },
    ensures
        spec_parse_event(s, i) == Some((e, i + spec_ser_event(e).len())),
{
    reveal(spec_ser_event);
    reveal(spec_parse_event);
    match e {
        GameEventTypeModel::Crash { message } => {
            lemma_split(s, i, seq![9u8], spec_ser_string(message));
            lemma_rt_u8(9u8, s, i);
            lemma_rt_string(message, s, i + 1);
        },
        _ => {},
    }
}

#[verifier::rlimit(100)]
#[verifier::spinoff_prover]
proof fn lemma_rt_event_set_sleeping(e: GameEventTypeModel, s: Seq<u8>, i: int)
    requires
        0 <= i,
        i + spec_ser_event(e).len() <= s.len(),
        s.subrange(i, i + spec_ser_event(e).len()) == spec_ser_event(e),
        e matches GameEventTypeModel::SetSleeping { .. },
    ensures
        spec_parse_event(s, i) == Some((e, i + spec_ser_event(e).len())),
{
    reveal(spec_ser_event);
    reveal(spec_parse_event);
    match e {
        GameEventTypeModel::SetSleeping { unit_id, sleeping } => {
            assert(spec_ser_event(e) =~= seq![10u8] + (spec_ser_u16(unit_id.0) + spec_ser_bool(
                sleeping,
            )));
            lemma_split(s, i, seq![10u8], spec_ser_u16(unit_id.0) + spec_ser_bool(sleeping));
            lemma_rt_u8(10u8, s, i);
            lemma_split(s, i + 1, spec_ser_u16(unit_id.0), spec_ser_bool(sleeping));
            lemma_rt_u16(unit_id.0, s, i + 1);
            lemma_rt_bool(sleeping, s, i + 3);
        },
        _ => {},
    }
}

#[verifier::rlimit(100)]
#[verifier::spinoff_prover]
proof fn lemma_rt_event_set_citizen_locked(e: GameEventTypeModel, s: Seq<u8>, i: int)
    requires
        0 <= i,
        i + spec_ser_event(e).len() <= s.len(),
        s.subrange(i, i + spec_ser_event(e).len()) == spec_ser_event(e),
        e matches GameEventTypeModel::SetCitizenLocked { .. },
    ensures
        spec_parse_event(s, i) == Some((e, i + spec_ser_event(e).len())),
{
    reveal(spec_ser_event);
    reveal(spec_parse_event);
    match e {
        GameEventTypeModel::SetCitizenLocked { city_id, position, locked } => {
            assert(spec_ser_event(e) =~= seq![11u8] + (spec_ser_u16(city_id.0) + (spec_ser_pos(
                position,
            ) + spec_ser_bool(locked))));
            lemma_split(
                s,
                i,
                seq![11u8],
                spec_ser_u16(city_id.0) + (spec_ser_pos(position) + spec_ser_bool(locked)),
            );
            lemma_rt_u8(11u8, s, i);
            lemma_split(
                s,
                i + 1,
                spec_ser_u16(city_id.0),
                spec_ser_pos(position) + spec_ser_bool(locked),
            );
            lemma_rt_u16(city_id.0, s, i + 1);
            lemma_split(s, i + 3, spec_ser_pos(position), spec_ser_bool(locked));
            lemma_rt_pos(position, s, i + 3);
            lemma_rt_bool(locked, s, i + 7);
        },
        _ => {},
    }
}



#[verifier::rlimit(100)]
#[verifier::spinoff_prover]
proof fn lemma_rt_event_increase_population(e: GameEventTypeModel, s: Seq<u8>, i: int)
    requires
        0 <= i,
        i + spec_ser_event(e).len() <= s.len(),
        s.subrange(i, i + spec_ser_event(e).len()) == spec_ser_event(e),
        e matches GameEventTypeModel::IncreasePopulationFromFood { .. },
    ensures
        spec_parse_event(s, i) == Some((e, i + spec_ser_event(e).len())),
{
    reveal(spec_ser_event);
    reveal(spec_parse_event);
    match e {
        GameEventTypeModel::IncreasePopulationFromFood { city_id } => {
            lemma_split(s, i, seq![12u8], spec_ser_u16(city_id.0));
            lemma_rt_u8(12u8, s, i);
            lemma_rt_u16(city_id.0, s, i + 1);
        },
        _ => {},
    }
}

#[verifier::rlimit(100)]
#[verifier::spinoff_prover]
proof fn lemma_rt_event_add_territory(e: GameEventTypeModel, s: Seq<u8>, i: int)
    requires
        0 <= i,
        i + spec_ser_event(e).len() <= s.len(),
        s.subrange(i, i + spec_ser_event(e).len()) == spec_ser_event(e),
        e matches GameEventTypeModel::AddTerritoryToCity { .. },
    ensures
        spec_parse_event(s, i) == Some((e, i + spec_ser_event(e).len())),
{
    reveal(spec_ser_event);
    reveal(spec_parse_event);
    match e {
        GameEventTypeModel::AddTerritoryToCity { city_id, position } => {
            assert(spec_ser_event(e) =~= seq![13u8] + (spec_ser_u16(city_id.0) + spec_ser_pos(
                position,
            )));
            lemma_split(s, i, seq![13u8], spec_ser_u16(city_id.0) + spec_ser_pos(position));
            lemma_rt_u8(13u8, s, i);
            lemma_split(s, i + 1, spec_ser_u16(city_id.0), spec_ser_pos(position));
            lemma_rt_u16(city_id.0, s, i + 1);
            lemma_rt_pos(position, s, i + 3);
        },
        _ => {},
    }
}

#[verifier::rlimit(100)]
#[verifier::spinoff_prover]
proof fn lemma_rt_event_harvest(e: GameEventTypeModel, s: Seq<u8>, i: int)
    requires
        0 <= i,
        i + spec_ser_event(e).len() <= s.len(),
        s.subrange(i, i + spec_ser_event(e).len()) == spec_ser_event(e),
        e matches GameEventTypeModel::Harvest { .. },
    ensures
        spec_parse_event(s, i) == Some((e, i + spec_ser_event(e).len())),
{
    reveal(spec_ser_event);
    reveal(spec_parse_event);
    match e {
        GameEventTypeModel::Harvest { position } => {
            lemma_split(s, i, seq![14u8], spec_ser_pos(position));
            lemma_rt_u8(14u8, s, i);
            lemma_rt_pos(position, s, i + 1);
        },
        _ => {},
    }
}

#[verifier::rlimit(100)]
#[verifier::spinoff_prover]
proof fn lemma_rt_event_deplete_movement(e: GameEventTypeModel, s: Seq<u8>, i: int)
    requires
        0 <= i,
        i + spec_ser_event(e).len() <= s.len(),
        s.subrange(i, i + spec_ser_event(e).len()) == spec_ser_event(e),
        e matches GameEventTypeModel::DepleteMovement { .. },
    ensures
        spec_parse_event(s, i) == Some((e, i + spec_ser_event(e).len())),
{
    reveal(spec_ser_event);
    reveal(spec_parse_event);
    match e {
        GameEventTypeModel::DepleteMovement { unit_id } => {
            lemma_split(s, i, seq![15u8], spec_ser_u16(unit_id.0));
            lemma_rt_u8(15u8, s, i);
            lemma_rt_u16(unit_id.0, s, i + 1);
        },
        _ => {},
    }
}

#[verifier::rlimit(100)]
#[verifier::spinoff_prover]
proof fn lemma_rt_event_use_charge(e: GameEventTypeModel, s: Seq<u8>, i: int)
    requires
        0 <= i,
        i + spec_ser_event(e).len() <= s.len(),
        s.subrange(i, i + spec_ser_event(e).len()) == spec_ser_event(e),
        e matches GameEventTypeModel::UseCharge { .. },
    ensures
        spec_parse_event(s, i) == Some((e, i + spec_ser_event(e).len())),
{
    reveal(spec_ser_event);
    reveal(spec_parse_event);
    match e {
        GameEventTypeModel::UseCharge { unit_id } => {
            lemma_split(s, i, seq![16u8], spec_ser_u16(unit_id.0));
            lemma_rt_u8(16u8, s, i);
            lemma_rt_u16(unit_id.0, s, i + 1);
        },
        _ => {},
    }
}

#[verifier::rlimit(100)]
#[verifier::spinoff_prover]
proof fn lemma_rt_event_finish_research(e: GameEventTypeModel, s: Seq<u8>, i: int)
    requires
        0 <= i,
        i + spec_ser_event(e).len() <= s.len(),
        s.subrange(i, i + spec_ser_event(e).len()) == spec_ser_event(e),
        e matches GameEventTypeModel::FinishResearch { .. },
    ensures
        spec_parse_event(s, i) == Some((e, i + spec_ser_event(e).len())),
{
    reveal(spec_ser_event);
    reveal(spec_parse_event);
    match e {
        GameEventTypeModel::FinishResearch { civilization_id } => {
            lemma_split(s, i, seq![17u8], spec_ser_u8(civilization_id.0));
            lemma_rt_u8(17u8, s, i);
            lemma_rt_u8(civilization_id.0, s, i + 1);
        },
        _ => {},
    }
}

#[verifier::rlimit(100)]
#[verifier::spinoff_prover]
proof fn lemma_rt_event_set_research(e: GameEventTypeModel, s: Seq<u8>, i: int)
    requires
        0 <= i,
        i + spec_ser_event(e).len() <= s.len(),
        s.subrange(i, i + spec_ser_event(e).len()) == spec_ser_event(e),
        e matches GameEventTypeModel::SetResearch { .. },
    ensures
        spec_parse_event(s, i) == Some((e, i + spec_ser_event(e).len())),
{
    reveal(spec_ser_event);
    reveal(spec_parse_event);
    match e {
        GameEventTypeModel::SetResearch { civilization_id, tech_id } => {
            assert(spec_ser_event(e) =~= seq![18u8] + (spec_ser_u8(civilization_id.0)
                + spec_ser_u8(tech_id.0)));
            lemma_split(s, i, seq![18u8], spec_ser_u8(civilization_id.0) + spec_ser_u8(tech_id.0));
            lemma_rt_u8(18u8, s, i);
            lemma_split(s, i + 1, spec_ser_u8(civilization_id.0), spec_ser_u8(tech_id.0));
            lemma_rt_u8(civilization_id.0, s, i + 1);
            lemma_rt_u8(tech_id.0, s, i + 2);
        },
        _ => {},
    }
}



// ----- byte lists: length-prefixed raw bytes -----
pub open spec fn spec_ser_byte_list(l: Seq<u8>) -> Seq<u8> {
    spec_ser_u64(l.len() as u64) + l
}

pub open spec fn spec_parse_byte_list(s: Seq<u8>, i: int) -> Option<(Seq<u8>, int)> {
    match spec_parse_u64(s, i) {
        Some((n, j)) => if j + n <= s.len() {
            Some((s.subrange(j, j + n), j + n))
        } else {
            None
        },
        None => None,
    }
}

fn ser_byte_list(out: &mut Vec<u8>, l: &Vec<u8>)
    ensures
        final(out)@ == old(out)@ + spec_ser_byte_list(l@),
{
    ser_u64(out, l.len() as u64);
    let ghost mid = out@;
    let mut i: usize = 0;
    while i < l.len()
        invariant
            0 <= i <= l@.len(),
            out@ == mid + l@.take(i as int),
        decreases l@.len() - i,
    {
        proof {
            assert(mid + l@.take(i as int + 1) =~= (mid + l@.take(i as int)).push(l@[i as int]));
        }
        out.push(l[i]);
        i += 1;
    }
    proof {
        assert(mid + l@.take(l@.len() as int) =~= mid + l@);
        assert(out@ =~= old(out)@ + spec_ser_byte_list(l@));
    }
}

fn parse_byte_list(s: &Vec<u8>, i: usize) -> (r: Option<(Vec<u8>, usize)>)
    ensures
        match r {
            Some((l, j)) => spec_parse_byte_list(s@, i as int) == Some((l@, j as int)),
            None => spec_parse_byte_list(s@, i as int) is None,
        },
{
    let (n, j) = match parse_u64(s, i) {
        Some(x) => x,
        None => { return None; },
    };
    if n > (s.len() as u64) {
        return None;
    }
    let n = n as usize;
    if j > s.len() - n {
        return None;
    }
    let mut bytes: Vec<u8> = Vec::new();
    let mut k: usize = 0;
    while k < n
        invariant
            0 <= k <= n,
            j + n <= s@.len(),
            s@.len() <= usize::MAX,
            bytes@ == s@.subrange(j as int, j + k as int),
        decreases n - k,
    {
        proof {
            assert(s@.subrange(j as int, j + (k + 1) as int) =~= s@.subrange(
                j as int,
                j + k as int,
            ).push(s@[j + k]));
        }
        bytes.push(s[j + k]);
        k += 1;
    }
    Some((bytes, j + n))
}

proof fn lemma_rt_byte_list(l: Seq<u8>, s: Seq<u8>, i: int)
    requires
        l.len() <= u64::MAX,
        0 <= i,
        i + spec_ser_byte_list(l).len() <= s.len(),
        s.subrange(i, i + spec_ser_byte_list(l).len()) == spec_ser_byte_list(l),
    ensures
        spec_parse_byte_list(s, i) == Some((l, i + spec_ser_byte_list(l).len())),
{
    lemma_split(s, i, spec_ser_u64(l.len() as u64), l);
    lemma_rt_u64(l.len() as u64, s, i);
    assert(s.subrange(i + 8, i + 8 + l.len()) =~= l);
}

// ----- sparse tile marks: a tile index with a code -----
pub open spec fn spec_ser_marks(l: Seq<(u16, u8)>) -> Seq<u8>
    decreases l.len(),
{
    if l.len() == 0 {
        Seq::<u8>::empty()
    } else {
        spec_ser_u16(l[0].0) + spec_ser_u8(l[0].1) + spec_ser_marks(l.drop_first())
    }
}

proof fn lemma_ser_marks_push(l: Seq<(u16, u8)>, e: (u16, u8))
    ensures
        spec_ser_marks(l.push(e)) == spec_ser_marks(l) + spec_ser_u16(e.0) + spec_ser_u8(e.1),
    decreases l.len(),
{
    let p = l.push(e);
    if l.len() == 0 {
        assert(p[0] == e);
        assert(p.drop_first() =~= Seq::<(u16, u8)>::empty());
        assert(spec_ser_marks(p.drop_first()) =~= Seq::<u8>::empty());
        assert(spec_ser_marks(p) == spec_ser_u16(p[0].0) + spec_ser_u8(p[0].1) + spec_ser_marks(
            p.drop_first(),
        ));
        assert(spec_ser_marks(l) =~= Seq::<u8>::empty());
        assert(spec_ser_marks(p) =~= spec_ser_marks(l) + spec_ser_u16(e.0) + spec_ser_u8(e.1));
    } else {
        assert(p[0] == l[0]);
        assert(p.drop_first() =~= l.drop_first().push(e));
        lemma_ser_marks_push(l.drop_first(), e);
        assert(spec_ser_marks(p) == spec_ser_u16(p[0].0) + spec_ser_u8(p[0].1) + spec_ser_marks(
            p.drop_first(),
        ));
        assert(spec_ser_marks(p.drop_first()) == spec_ser_marks(l.drop_first()) + spec_ser_u16(
            e.0,
        ) + spec_ser_u8(e.1));
        assert(spec_ser_marks(l) == spec_ser_u16(l[0].0) + spec_ser_u8(l[0].1) + spec_ser_marks(
            l.drop_first(),
        ));
        assert(spec_ser_marks(p) =~= spec_ser_marks(l) + spec_ser_u16(e.0) + spec_ser_u8(e.1));
    }
}

pub open spec fn spec_parse_marks(s: Seq<u8>, i: int, n: nat) -> Option<(Seq<(u16, u8)>, int)>
    decreases n,
{
    if n == 0 {
        Some((Seq::<(u16, u8)>::empty(), i))
    } else {
        match spec_parse_u16(s, i) {
            Some((a, j)) => match spec_parse_u8(s, j) {
                Some((b, k)) => match spec_parse_marks(s, k, (n - 1) as nat) {
                    Some((rest, end)) => Some((seq![(a, b)] + rest, end)),
                    None => None,
                },
                None => None,
            },
            None => None,
        }
    }
}

pub open spec fn spec_ser_mark_list(l: Seq<(u16, u8)>) -> Seq<u8> {
    spec_ser_u64(l.len() as u64) + spec_ser_marks(l)
}

pub open spec fn spec_parse_mark_list(s: Seq<u8>, i: int) -> Option<(Seq<(u16, u8)>, int)> {
    match spec_parse_u64(s, i) {
        Some((n, j)) => spec_parse_marks(s, j, n as nat),
        None => None,
    }
}

fn ser_mark_list(out: &mut Vec<u8>, l: &Vec<(u16, u8)>)
    ensures
        final(out)@ == old(out)@ + spec_ser_mark_list(l@),
{
    ser_u64(out, l.len() as u64);
    let ghost mid = out@;
    let mut i: usize = 0;
    while i < l.len()
        invariant
            0 <= i <= l@.len(),
            out@ == mid + spec_ser_marks(l@.take(i as int)),
        decreases l@.len() - i,
    {
        proof {
            assert(l@.take(i as int + 1) =~= l@.take(i as int).push(l@[i as int]));
            lemma_ser_marks_push(l@.take(i as int), l@[i as int]);
        }
        let e = l[i];
        ser_u16(out, e.0);
        ser_u8(out, e.1);
        proof {
            assert(out@ =~= mid + spec_ser_marks(l@.take(i as int + 1)));
        }
        i += 1;
    }
    proof {
        assert(l@.take(l@.len() as int) =~= l@);
        assert(out@ =~= old(out)@ + spec_ser_mark_list(l@));
    }
}

fn parse_marks(s: &Vec<u8>, i: usize, n: u64) -> (r: Option<(Vec<(u16, u8)>, usize)>)
    ensures
        match r {
            Some((l, j)) => spec_parse_marks(s@, i as int, n as nat) == Some((l@, j as int)),
            None => spec_parse_marks(s@, i as int, n as nat) is None,
        },
    decreases n,
{
    if n == 0 {
        let l: Vec<(u16, u8)> = Vec::new();
        proof {
            assert(l@ =~= Seq::<(u16, u8)>::empty());
        }
        return Some((l, i));
    }
    let (a, j) = match parse_u16(s, i) {
        Some(x) => x,
        None => { return None; },
    };
    let (b, k) = match parse_u8(s, j) {
        Some(x) => x,
        None => { return None; },
    };
    match parse_marks(s, k, n - 1) {
        Some((rest, end)) => {
            let ghost grest = rest@;
            let mut l = rest;
            l.insert(0, (a, b));
            proof {
                assert(l@ =~= seq![(a, b)] + grest);
            }
            Some((l, end))
        },
        None => None,
    }
}

fn parse_mark_list(s: &Vec<u8>, i: usize) -> (r: Option<(Vec<(u16, u8)>, usize)>)
    ensures
        match r {
            Some((l, j)) => spec_parse_mark_list(s@, i as int) == Some((l@, j as int)),
            None => spec_parse_mark_list(s@, i as int) is None,
        },
{
    let (n, j) = match parse_u64(s, i) {
        Some(x) => x,
        None => { return None; },
    };
    parse_marks(s, j, n)
}

proof fn lemma_rt_marks(l: Seq<(u16, u8)>, s: Seq<u8>, i: int)
    requires
        0 <= i,
        i + spec_ser_marks(l).len() <= s.len(),
        s.subrange(i, i + spec_ser_marks(l).len()) == spec_ser_marks(l),
    ensures
        spec_parse_marks(s, i, l.len()) == Some((l, i + spec_ser_marks(l).len())),
    decreases l.len(),
{
    if l.len() == 0 {
    } else {
        let a = spec_ser_u16(l[0].0);
        let b = spec_ser_u8(l[0].1);
        let rest = spec_ser_marks(l.drop_first());
        assert(spec_ser_marks(l) =~= a + (b + rest));
        lemma_split(s, i, a, b + rest);
        lemma_rt_u16(l[0].0, s, i);
        lemma_split(s, i + 2, b, rest);
        lemma_rt_u8(l[0].1, s, i + 2);
        lemma_rt_marks(l.drop_first(), s, i + 3);
        assert(seq![(l[0].0, l[0].1)] + l.drop_first() =~= l);
        assert((l[0].0, l[0].1) == l[0]);
    }
}

proof fn lemma_rt_mark_list(l: Seq<(u16, u8)>, s: Seq<u8>, i: int)
    requires
        l.len() <= u64::MAX,
        0 <= i,
        i + spec_ser_mark_list(l).len() <= s.len(),
        s.subrange(i, i + spec_ser_mark_list(l).len()) == spec_ser_mark_list(l),
    ensures
        spec_parse_mark_list(s, i) == Some((l, i + spec_ser_mark_list(l).len())),
{
    lemma_split(s, i, spec_ser_u64(l.len() as u64), spec_ser_marks(l));
    lemma_rt_u64(l.len() as u64, s, i);
    assert((l.len() as u64) as nat == l.len());
    lemma_rt_marks(l, s, i + 8);
}

// ----- river walks: a start tile with a direction -----
pub open spec fn spec_ser_rivers(l: Seq<(i16, i16, u8)>) -> Seq<u8>
    decreases l.len(),
{
    if l.len() == 0 {
        Seq::<u8>::empty()
    } else {
        spec_ser_i16(l[0].0) + spec_ser_i16(l[0].1) + spec_ser_u8(l[0].2) + spec_ser_rivers(
            l.drop_first(),
        )
    }
}

proof fn lemma_ser_rivers_push(l: Seq<(i16, i16, u8)>, e: (i16, i16, u8))
    ensures
        spec_ser_rivers(l.push(e)) == spec_ser_rivers(l) + spec_ser_i16(e.0) + spec_ser_i16(e.1)
            + spec_ser_u8(e.2),
    decreases l.len(),
{
    let p = l.push(e);
    if l.len() == 0 {
        assert(p[0] == e);
        assert(p.drop_first() =~= Seq::<(i16, i16, u8)>::empty());
        assert(spec_ser_rivers(p.drop_first()) =~= Seq::<u8>::empty());
        assert(spec_ser_rivers(p) == spec_ser_i16(p[0].0) + spec_ser_i16(p[0].1) + spec_ser_u8(
            p[0].2,
        ) + spec_ser_rivers(p.drop_first()));
        assert(spec_ser_rivers(l) =~= Seq::<u8>::empty());
        assert(spec_ser_rivers(p) =~= spec_ser_rivers(l) + spec_ser_i16(e.0) + spec_ser_i16(e.1)
            + spec_ser_u8(e.2));
    } else {
        assert(p[0] == l[0]);
        assert(p.drop_first() =~= l.drop_first().push(e));
        lemma_ser_rivers_push(l.drop_first(), e);
        assert(spec_ser_rivers(p) == spec_ser_i16(p[0].0) + spec_ser_i16(p[0].1) + spec_ser_u8(
            p[0].2,
        ) + spec_ser_rivers(p.drop_first()));
        assert(spec_ser_rivers(p.drop_first()) == spec_ser_rivers(l.drop_first()) + spec_ser_i16(
            e.0,
        ) + spec_ser_i16(e.1) + spec_ser_u8(e.2));
        assert(spec_ser_rivers(l) == spec_ser_i16(l[0].0) + spec_ser_i16(l[0].1) + spec_ser_u8(
            l[0].2,
        ) + spec_ser_rivers(l.drop_first()));
        assert(spec_ser_rivers(p) =~= spec_ser_rivers(l) + spec_ser_i16(e.0) + spec_ser_i16(e.1)
            + spec_ser_u8(e.2));
    }
}

pub open spec fn spec_parse_rivers(s: Seq<u8>, i: int, n: nat) -> Option<
    (Seq<(i16, i16, u8)>, int),
>
    decreases n,
{
    if n == 0 {
        Some((Seq::<(i16, i16, u8)>::empty(), i))
    } else {
        match spec_parse_i16(s, i) {
            Some((x, j)) => match spec_parse_i16(s, j) {
                Some((y, k)) => match spec_parse_u8(s, k) {
                    Some((d, k2)) => match spec_parse_rivers(s, k2, (n - 1) as nat) {
                        Some((rest, end)) => Some((seq![(x, y, d)] + rest, end)),
                        None => None,
                    },
                    None => None,
                },
                None => None,
            },
            None => None,
        }
    }
}

pub open spec fn spec_ser_river_list(l: Seq<(i16, i16, u8)>) -> Seq<u8> {
    spec_ser_u64(l.len() as u64) + spec_ser_rivers(l)
}

pub open spec fn spec_parse_river_list(s: Seq<u8>, i: int) -> Option<(Seq<(i16, i16, u8)>, int)> {
    match spec_parse_u64(s, i) {
        Some((n, j)) => spec_parse_rivers(s, j, n as nat),
        None => None,
    }
}

fn ser_river_list(out: &mut Vec<u8>, l: &Vec<(i16, i16, u8)>)
    ensures
        final(out)@ == old(out)@ + spec_ser_river_list(l@),
{
    ser_u64(out, l.len() as u64);
    let ghost mid = out@;
    let mut i: usize = 0;
    while i < l.len()
        invariant
            0 <= i <= l@.len(),
            out@ == mid + spec_ser_rivers(l@.take(i as int)),
        decreases l@.len() - i,
    {
        proof {
            assert(l@.take(i as int + 1) =~= l@.take(i as int).push(l@[i as int]));
            lemma_ser_rivers_push(l@.take(i as int), l@[i as int]);
        }
        let e = l[i];
        ser_i16(out, e.0);
        ser_i16(out, e.1);
        ser_u8(out, e.2);
        proof {
            assert(out@ =~= mid + spec_ser_rivers(l@.take(i as int + 1)));
        }
        i += 1;
    }
    proof {
        assert(l@.take(l@.len() as int) =~= l@);
        assert(out@ =~= old(out)@ + spec_ser_river_list(l@));
    }
}

fn parse_rivers(s: &Vec<u8>, i: usize, n: u64) -> (r: Option<(Vec<(i16, i16, u8)>, usize)>)
    ensures
        match r {
            Some((l, j)) => spec_parse_rivers(s@, i as int, n as nat) == Some((l@, j as int)),
            None => spec_parse_rivers(s@, i as int, n as nat) is None,
        },
    decreases n,
{
    if n == 0 {
        let l: Vec<(i16, i16, u8)> = Vec::new();
        proof {
            assert(l@ =~= Seq::<(i16, i16, u8)>::empty());
        }
        return Some((l, i));
    }
    let (x, j) = match parse_i16(s, i) {
        Some(v) => v,
        None => { return None; },
    };
    let (y, k) = match parse_i16(s, j) {
        Some(v) => v,
        None => { return None; },
    };
    let (d, k2) = match parse_u8(s, k) {
        Some(v) => v,
        None => { return None; },
    };
    match parse_rivers(s, k2, n - 1) {
        Some((rest, end)) => {
            let ghost grest = rest@;
            let mut l = rest;
            l.insert(0, (x, y, d));
            proof {
                assert(l@ =~= seq![(x, y, d)] + grest);
            }
            Some((l, end))
        },
        None => None,
    }
}

fn parse_river_list(s: &Vec<u8>, i: usize) -> (r: Option<(Vec<(i16, i16, u8)>, usize)>)
    ensures
        match r {
            Some((l, j)) => spec_parse_river_list(s@, i as int) == Some((l@, j as int)),
            None => spec_parse_river_list(s@, i as int) is None,
        },
{
    let (n, j) = match parse_u64(s, i) {
        Some(x) => x,
        None => { return None; },
    };
    parse_rivers(s, j, n)
}

proof fn lemma_rt_rivers(l: Seq<(i16, i16, u8)>, s: Seq<u8>, i: int)
    requires
        0 <= i,
        i + spec_ser_rivers(l).len() <= s.len(),
        s.subrange(i, i + spec_ser_rivers(l).len()) == spec_ser_rivers(l),
    ensures
        spec_parse_rivers(s, i, l.len()) == Some((l, i + spec_ser_rivers(l).len())),
    decreases l.len(),
{
    if l.len() == 0 {
    } else {
        let a = spec_ser_i16(l[0].0);
        let b = spec_ser_i16(l[0].1);
        let c = spec_ser_u8(l[0].2);
        let rest = spec_ser_rivers(l.drop_first());
        assert(spec_ser_rivers(l) =~= a + (b + (c + rest)));
        lemma_split(s, i, a, b + (c + rest));
        lemma_rt_i16(l[0].0, s, i);
        lemma_split(s, i + 2, b, c + rest);
        lemma_rt_i16(l[0].1, s, i + 2);
        lemma_split(s, i + 4, c, rest);
        lemma_rt_u8(l[0].2, s, i + 4);
        lemma_rt_rivers(l.drop_first(), s, i + 5);
        assert(seq![(l[0].0, l[0].1, l[0].2)] + l.drop_first() =~= l);
        assert((l[0].0, l[0].1, l[0].2) == l[0]);
    }
}

proof fn lemma_rt_river_list(l: Seq<(i16, i16, u8)>, s: Seq<u8>, i: int)
    requires
        l.len() <= u64::MAX,
        0 <= i,
        i + spec_ser_river_list(l).len() <= s.len(),
        s.subrange(i, i + spec_ser_river_list(l).len()) == spec_ser_river_list(l),
    ensures
        spec_parse_river_list(s, i) == Some((l, i + spec_ser_river_list(l).len())),
{
    lemma_split(s, i, spec_ser_u64(l.len() as u64), spec_ser_rivers(l));
    lemma_rt_u64(l.len() as u64, s, i);
    assert((l.len() as u64) as nat == l.len());
    lemma_rt_rivers(l, s, i + 8);
}

// ----- rosters: each member's name with its id -----
pub open spec fn spec_ser_roster(l: Seq<(Seq<char>, PlayerId)>) -> Seq<u8>
    decreases l.len(),
{
    if l.len() == 0 {
        Seq::<u8>::empty()
    } else {
        spec_ser_string(l[0].0) + spec_ser_u8(l[0].1.0) + spec_ser_roster(l.drop_first())
    }
}

proof fn lemma_ser_roster_push(l: Seq<(Seq<char>, PlayerId)>, e: (Seq<char>, PlayerId))
    ensures
        spec_ser_roster(l.push(e)) == spec_ser_roster(l) + spec_ser_string(e.0) + spec_ser_u8(
            e.1.0,
        ),
    decreases l.len(),
{
    let p = l.push(e);
    if l.len() == 0 {
        assert(p[0] == e);
        assert(p.drop_first() =~= Seq::<(Seq<char>, PlayerId)>::empty());
        assert(spec_ser_roster(p.drop_first()) =~= Seq::<u8>::empty());
        assert(spec_ser_roster(p) == spec_ser_string(p[0].0) + spec_ser_u8(p[0].1.0)
            + spec_ser_roster(p.drop_first()));
        assert(spec_ser_roster(l) =~= Seq::<u8>::empty());
        assert(spec_ser_roster(p) =~= spec_ser_roster(l) + spec_ser_string(e.0) + spec_ser_u8(
            e.1.0,
        ));
    } else {
        assert(p[0] == l[0]);
        assert(p.drop_first() =~= l.drop_first().push(e));
        lemma_ser_roster_push(l.drop_first(), e);
        assert(spec_ser_roster(p) == spec_ser_string(p[0].0) + spec_ser_u8(p[0].1.0)
            + spec_ser_roster(p.drop_first()));
        assert(spec_ser_roster(p.drop_first()) == spec_ser_roster(l.drop_first())
            + spec_ser_string(e.0) + spec_ser_u8(e.1.0));
        assert(spec_ser_roster(l) == spec_ser_string(l[0].0) + spec_ser_u8(l[0].1.0)
            + spec_ser_roster(l.drop_first()));
        assert(spec_ser_roster(p) =~= spec_ser_roster(l) + spec_ser_string(e.0) + spec_ser_u8(
            e.1.0,
        ));
    }
}

pub open spec fn spec_parse_roster(s: Seq<u8>, i: int, n: nat) -> Option<
    (Seq<(Seq<char>, PlayerId)>, int),
>
    decreases n,
{
    if n == 0 {
        Some((Seq::<(Seq<char>, PlayerId)>::empty(), i))
    } else {
        match spec_parse_string(s, i) {
            Some((name, j)) => match spec_parse_u8(s, j) {
                Some((id, k)) => match spec_parse_roster(s, k, (n - 1) as nat) {
                    Some((rest, end)) => Some((seq![(name, PlayerId(id))] + rest, end)),
                    None => None,
                },
                None => None,
            },
            None => None,
        }
    }
}

pub open spec fn spec_ser_roster_list(l: Seq<(Seq<char>, PlayerId)>) -> Seq<u8> {
    spec_ser_u64(l.len() as u64) + spec_ser_roster(l)
}

pub open spec fn spec_parse_roster_list(s: Seq<u8>, i: int) -> Option<
    (Seq<(Seq<char>, PlayerId)>, int),
> {
    match spec_parse_u64(s, i) {
        Some((n, j)) => spec_parse_roster(s, j, n as nat),
        None => None,
    }
}

/// The machine limit on an encodable roster: the member count and each
/// name's UTF-8 form must fit their length prefixes.
pub open spec fn spec_roster_len_ok(l: Seq<(Seq<char>, PlayerId)>) -> bool {
    l.len() <= u64::MAX && (forall|k: int| 0 <= k < l.len() ==> spec_string_len_ok(#[trigger] l[k].0))
}

fn ser_roster_list(out: &mut Vec<u8>, l: &Vec<(String, PlayerId)>)
    ensures
        final(out)@ == old(out)@ + spec_ser_roster_list(crate::session::spec_roster_view(l@)),
{
    let ghost r = crate::session::spec_roster_view(l@);
    ser_u64(out, l.len() as u64);
    let ghost mid = out@;
    let mut i: usize = 0;
    while i < l.len()
        invariant
            0 <= i <= l@.len(),
            r == crate::session::spec_roster_view(l@),
            r.len() == l@.len(),
            out@ == mid + spec_ser_roster(r.take(i as int)),
        decreases l@.len() - i,
    {
        proof {
            assert(r.take(i as int + 1) =~= r.take(i as int).push(r[i as int]));
            lemma_ser_roster_push(r.take(i as int), r[i as int]);
            assert(r[i as int] == (l@[i as int].0@, l@[i as int].1));
        }
        let entry = &l[i];
        ser_string(out, &entry.0);
        ser_u8(out, entry.1.0);
        proof {
            assert(out@ =~= mid + spec_ser_roster(r.take(i as int + 1)));
        }
        i += 1;
    }
    proof {
        assert(r.take(r.len() as int) =~= r);
        assert(out@ =~= old(out)@ + spec_ser_roster_list(r));
    }
}

fn parse_roster(s: &Vec<u8>, i: usize, n: u64) -> (r: Option<(Vec<(String, PlayerId)>, usize)>)
    ensures
        match r {
            Some((l, j)) => spec_parse_roster(s@, i as int, n as nat) == Some(
                (crate::session::spec_roster_view(l@), j as int),
            ),
            None => spec_parse_roster(s@, i as int, n as nat) is None,
        },
    decreases n,
{
    if n == 0 {
        let l: Vec<(String, PlayerId)> = Vec::new();
        proof {
            assert(crate::session::spec_roster_view(l@) =~= Seq::<(Seq<char>, PlayerId)>::empty());
        }
        return Some((l, i));
    }
    let (name, j) = match parse_string(s, i) {
        Some(x) => x,
        None => { return None; },
    };
    let (id, k) = match parse_u8(s, j) {
        Some(x) => x,
        None => { return None; },
    };
    match parse_roster(s, k, n - 1) {
        Some((rest, end)) => {
            let ghost grest = crate::session::spec_roster_view(rest@);
            let entry = (name, PlayerId(id));
            let ghost gentry = (entry.0@, entry.1);
            let mut l = rest;
            l.insert(0, entry);
            proof {
                let f = |e: (String, PlayerId)| (e.0@, e.1);
                assert forall|k2: int|
                    0 <= k2 < l@.len() implies #[trigger] crate::session::spec_roster_view(l@)[k2]
                    == (seq![gentry] + grest)[k2] by {
                    if k2 == 0 {
                        assert(l@[0].0@ == gentry.0);
                        assert(l@[0].1 == gentry.1);
                    } else {
                        assert(l@[k2].0@ == grest[k2 - 1].0);
                        assert(l@[k2].1 == grest[k2 - 1].1);
                    }
                }
                assert(crate::session::spec_roster_view(l@) =~= seq![gentry] + grest);
            }
            Some((l, end))
        },
        None => None,
    }
}

fn parse_roster_list(s: &Vec<u8>, i: usize) -> (r: Option<(Vec<(String, PlayerId)>, usize)>)
    ensures
        match r {
            Some((l, j)) => spec_parse_roster_list(s@, i as int) == Some(
                (crate::session::spec_roster_view(l@), j as int),
            ),
            None => spec_parse_roster_list(s@, i as int) is None,
        },
{
    let (n, j) = match parse_u64(s, i) {
        Some(x) => x,
        None => { return None; },
    };
    parse_roster(s, j, n)
}

proof fn lemma_rt_roster(l: Seq<(Seq<char>, PlayerId)>, s: Seq<u8>, i: int)
    requires
        forall|k: int| 0 <= k < l.len() ==> spec_string_len_ok(#[trigger] l[k].0),
        0 <= i,
        i + spec_ser_roster(l).len() <= s.len(),
        s.subrange(i, i + spec_ser_roster(l).len()) == spec_ser_roster(l),
    ensures
        spec_parse_roster(s, i, l.len()) == Some((l, i + spec_ser_roster(l).len())),
    decreases l.len(),
{
    if l.len() == 0 {
    } else {
        let a = spec_ser_string(l[0].0);
        let b = spec_ser_u8(l[0].1.0);
        let rest = spec_ser_roster(l.drop_first());
        assert(spec_ser_roster(l) =~= a + (b + rest));
        lemma_split(s, i, a, b + rest);
        assert(l[0].0 == l[0].0);
        lemma_rt_string(l[0].0, s, i);
        lemma_split(s, i + a.len(), b, rest);
        lemma_rt_u8(l[0].1.0, s, i + a.len());
        assert forall|k: int| 0 <= k < l.drop_first().len() implies spec_string_len_ok(
            #[trigger] l.drop_first()[k].0,
        ) by {
            assert(l.drop_first()[k] == l[k + 1]);
        }
        lemma_rt_roster(l.drop_first(), s, i + a.len() + 1);
        assert(seq![(l[0].0, PlayerId(l[0].1.0))] + l.drop_first() =~= l);
    }
}

proof fn lemma_rt_roster_list(l: Seq<(Seq<char>, PlayerId)>, s: Seq<u8>, i: int)
    requires
        spec_roster_len_ok(l),
        0 <= i,
        i + spec_ser_roster_list(l).len() <= s.len(),
        s.subrange(i, i + spec_ser_roster_list(l).len()) == spec_ser_roster_list(l),
    ensures
        spec_parse_roster_list(s, i) == Some((l, i + spec_ser_roster_list(l).len())),
{
    lemma_split(s, i, spec_ser_u64(l.len() as u64), spec_ser_roster(l));
    lemma_rt_u64(l.len() as u64, s, i);
    assert((l.len() as u64) as nat == l.len());
    lemma_rt_roster(l, s, i + 8);
}

// ----- map dressing: the recorded random decoration of a generated map -----
/// The machine limit on encodable dressing: each list's length must fit
/// its prefix.
pub open spec fn spec_dressing_len_ok(d: MapDressingModel) -> bool {
    &&& d.tile_codes.len() <= u64::MAX
    &&& d.resources.len() <= u64::MAX
    &&& d.vegetation.len() <= u64::MAX
    &&& d.rivers.len() <= u64::MAX
}

/// The byte encoding of recorded map dressing: the four lists in order,
/// each length-prefixed.
#[verifier::opaque]
pub open spec fn spec_ser_dressing(d: MapDressingModel) -> Seq<u8> {
    spec_ser_byte_list(d.tile_codes) + spec_ser_mark_list(d.resources) + spec_ser_mark_list(
        d.vegetation,
    ) + spec_ser_river_list(d.rivers)
}

/// The dressing a byte string encodes from position `i`.
#[verifier::opaque]
pub open spec fn spec_parse_dressing(s: Seq<u8>, i: int) -> Option<(MapDressingModel, int)> {
    match spec_parse_byte_list(s, i) {
        Some((tile_codes, j1)) => match spec_parse_mark_list(s, j1) {
            Some((resources, j2)) => match spec_parse_mark_list(s, j2) {
                Some((vegetation, j3)) => match spec_parse_river_list(s, j3) {
                    Some((rivers, j4)) => Some(
                        (MapDressingModel { tile_codes, resources, vegetation, rivers }, j4),
                    ),
                    None => None,
                },
                None => None,
            },
            None => None,
        },
        None => None,
    }
}

fn ser_dressing(out: &mut Vec<u8>, d: &MapDressing)
    ensures
        final(out)@ == old(out)@ + spec_ser_dressing(d.model()),
{
    proof {
        reveal(spec_ser_dressing);
    }
    ser_byte_list(out, &d.tile_codes);
    ser_mark_list(out, &d.resources);
    ser_mark_list(out, &d.vegetation);
    ser_river_list(out, &d.rivers);
    proof {
        assert(out@ =~= old(out)@ + spec_ser_dressing(d.model()));
    }
}

fn parse_dressing(s: &Vec<u8>, i: usize) -> (r: Option<(MapDressing, usize)>)
    ensures
        match r {
            Some((d, j)) => spec_parse_dressing(s@, i as int) == Some((d.model(), j as int)),
            None => spec_parse_dressing(s@, i as int) is None,
        },
{
    proof {
        reveal(spec_parse_dressing);
    }
    let (tile_codes, j1) = match parse_byte_list(s, i) {
        Some(x) => x,
        None => { return None; },
    };
    let (resources, j2) = match parse_mark_list(s, j1) {
        Some(x) => x,
        None => { return None; },
    };
    let (vegetation, j3) = match parse_mark_list(s, j2) {
        Some(x) => x,
        None => { return None; },
    };
    let (rivers, j4) = match parse_river_list(s, j3) {
        Some(x) => x,
        None => { return None; },
    };
    Some((MapDressing { tile_codes, resources, vegetation, rivers }, j4))
}

#[verifier::rlimit(100)]
#[verifier::spinoff_prover]
proof fn lemma_rt_dressing(d: MapDressingModel, s: Seq<u8>, i: int)
    requires
        spec_dressing_len_ok(d),
        0 <= i,
        i + spec_ser_dressing(d).len() <= s.len(),
        s.subrange(i, i + spec_ser_dressing(d).len()) == spec_ser_dressing(d),
    ensures
        spec_parse_dressing(s, i) == Some((d, i + spec_ser_dressing(d).len())),
{
    reveal(spec_ser_dressing);
    reveal(spec_parse_dressing);
    let a = spec_ser_byte_list(d.tile_codes);
    let b = spec_ser_mark_list(d.resources);
    let c = spec_ser_mark_list(d.vegetation);
    let e = spec_ser_river_list(d.rivers);
    assert(spec_ser_dressing(d) =~= a + (b + (c + e)));
    lemma_split(s, i, a, b + (c + e));
    lemma_rt_byte_list(d.tile_codes, s, i);
    lemma_split(s, i + a.len(), b, c + e);
    lemma_rt_mark_list(d.resources, s, i + a.len());
    lemma_split(s, i + a.len() + b.len(), c, e);
    lemma_rt_mark_list(d.vegetation, s, i + a.len() + b.len());
    lemma_rt_river_list(d.rivers, s, i + a.len() + b.len() + c.len());
}

// ----- the server-to-client envelope -----
/// The machine limit on an encodable server-to-client message.
pub open spec fn spec_msg_to_client_len_ok(m: MessageToClientModel) -> bool {
    match m {
        MessageToClientModel::InitializeWorld { players, dressing, .. } => spec_roster_len_ok(
            players,
        ) && spec_dressing_len_ok(dressing),
        MessageToClientModel::Event(e) => spec_event_len_ok(e),
        MessageToClientModel::LobbyInfo(li) => spec_roster_len_ok(li.players),
        MessageToClientModel::Kick => true,
    }
}

/// The byte encoding of a server-to-client message: a tag byte and the
/// payload.
#[verifier::opaque]
pub open spec fn spec_ser_msg_to_client(m: MessageToClientModel) -> Seq<u8> {
    match m {
        MessageToClientModel::LobbyInfo(li) => seq![0u8] + spec_ser_roster_list(li.players)
            + spec_ser_u8(li.you.0) + spec_ser_u8(li.host.0),
        MessageToClientModel::InitializeWorld { width, height, players, dressing, player_id } => (
        seq![1u8] + spec_ser_i16(width) + spec_ser_i16(height) + spec_ser_roster_list(players)
            + spec_ser_dressing(dressing) + spec_ser_u8(player_id.0)
        ),
        MessageToClientModel::Event(e) => seq![2u8] + spec_ser_event(e),
        MessageToClientModel::Kick => seq![3u8],
    }
}

/// The server-to-client message a byte string encodes from position `i`.
#[verifier::opaque]
pub open spec fn spec_parse_msg_to_client(s: Seq<u8>, i: int) -> Option<
    (MessageToClientModel, int),
> {
    match spec_parse_u8(s, i) {
        None => None,
        Some((tag, j)) => if tag == 0 {
            match spec_parse_roster_list(s, j) {
                Some((players, j1)) => match spec_parse_u8(s, j1) {
                    Some((you, j2)) => match spec_parse_u8(s, j2) {
                        Some((host, j3)) => Some(
                            (
                                MessageToClientModel::LobbyInfo(
                                    LobbyInfoModel {
                                        players,
                                        you: PlayerId(you),
                                        host: PlayerId(host),
                                    },
                                ),
                                j3,
                            ),
                        ),
                        None => None,
                    },
                    None => None,
                },
                None => None,
            }
        } else if tag == 1 {
            match spec_parse_i16(s, j) {
                Some((width, j1)) => match spec_parse_i16(s, j1) {
                    Some((height, j2)) => match spec_parse_roster_list(s, j2) {
                        Some((players, j3)) => match spec_parse_dressing(s, j3) {
                            Some((dressing, j4)) => match spec_parse_u8(s, j4) {
                                Some((pid, j5)) => Some(
                                    (
                                        MessageToClientModel::InitializeWorld {
                                            width,
                                            height,
                                            players,
                                            dressing,
                                            player_id: PlayerId(pid),
                                        },
                                        j5,
                                    ),
                                ),
                                None => None,
                            },
                            None => None,
                        },
                        None => None,
                    },
                    None => None,
                },
                None => None,
            }
        } else if tag == 2 {
            match spec_parse_event(s, j) {
                Some((e, j1)) => Some((MessageToClientModel::Event(e), j1)),
                None => None,
            }
        } else if tag == 3 {
            Some((MessageToClientModel::Kick, j))
        } else {
            None
        },
    }
}

/// Encode one server-to-client message as a self-delimiting record.
pub fn encode_msg_to_client(m: &MessageToClient) -> (r: Vec<u8>)
    requires
        spec_ser_msg_to_client(m.model()).len() <= usize::MAX,
    ensures
        r@ == spec_ser_msg_to_client(m.model()),
{
    proof {
        reveal(spec_ser_msg_to_client);
    }
    let mut out: Vec<u8> = Vec::new();
    match m {
        MessageToClient::LobbyInfo(li) => {
            ser_u8(&mut out, 0);
            ser_roster_list(&mut out, &li.players);
            ser_u8(&mut out, li.you.0);
            ser_u8(&mut out, li.host.0);
        },
        MessageToClient::InitializeWorld { width, height, players, dressing, player_id } => {
            ser_u8(&mut out, 1);
            ser_i16(&mut out, *width);
            ser_i16(&mut out, *height);
            ser_roster_list(&mut out, players);
            ser_dressing(&mut out, dressing);
            ser_u8(&mut out, player_id.0);
        },
        MessageToClient::Event(e) => {
            ser_u8(&mut out, 2);
            let mut payload = encode_event(e);
            out.append(&mut payload);
        },
        MessageToClient::Kick => {
            ser_u8(&mut out, 3);
        },
    }
    proof {
        assert(out@ =~= spec_ser_msg_to_client(m.model()));
    }
    out
}

/// Decode one server-to-client message from a byte string.
pub fn decode_msg_to_client(s: &Vec<u8>, i: usize) -> (r: Option<(MessageToClient, usize)>)
    ensures
        match r {
            Some((v, j)) => spec_parse_msg_to_client(s@, i as int) == Some((v.model(), j as int)),
            None => spec_parse_msg_to_client(s@, i as int) is None,
        },
{
    proof {
        reveal(spec_parse_msg_to_client);
    }
    let (tag, j) = match parse_u8(s, i) {
        Some(v) => v,
        None => { return None; },
    };
    if tag == 0 {
        let (players, j1) = match parse_roster_list(s, j) {
            Some(x) => x,
            None => { return None; },
        };
        let (you, j2) = match parse_u8(s, j1) {
            Some(x) => x,
            None => { return None; },
        };
        let (host, j3) = match parse_u8(s, j2) {
            Some(x) => x,
            None => { return None; },
        };
        Some(
            (
                MessageToClient::LobbyInfo(
                    LobbyInfo { players, you: PlayerId(you), host: PlayerId(host) },
                ),
                j3,
            ),
        )
    } else if tag == 1 {
        let (width, j1) = match parse_i16(s, j) {
            Some(x) => x,
            None => { return None; },
        };
        let (height, j2) = match parse_i16(s, j1) {
            Some(x) => x,
            None => { return None; },
        };
        let (players, j3) = match parse_roster_list(s, j2) {
            Some(x) => x,
            None => { return None; },
        };
        let (dressing, j4) = match parse_dressing(s, j3) {
            Some(x) => x,
            None => { return None; },
        };
        let (pid, j5) = match parse_u8(s, j4) {
            Some(x) => x,
            None => { return None; },
        };
        Some(
            (
                MessageToClient::InitializeWorld {
                    width,
                    height,
                    players,
                    dressing,
                    player_id: PlayerId(pid),
                },
                j5,
            ),
        )
    } else if tag == 2 {
        match decode_event(s, j) {
            Some((e, j1)) => Some((MessageToClient::Event(e), j1)),
            None => None,
        }
    } else if tag == 3 {
        Some((MessageToClient::Kick, j))
    } else {
        None
    }
}

/// Round trip for the server-to-client envelope: decoding an encoded
/// message from any stream that starts with it yields it back, exactly.
#[verifier::rlimit(100)]
#[verifier::spinoff_prover]
pub proof fn lemma_msg_to_client_round_trip(m: MessageToClientModel, s: Seq<u8>, i: int)
    requires
        spec_msg_to_client_len_ok(m),
        0 <= i,
        i + spec_ser_msg_to_client(m).len() <= s.len(),
        s.subrange(i, i + spec_ser_msg_to_client(m).len()) == spec_ser_msg_to_client(m),
    ensures
        spec_parse_msg_to_client(s, i) == Some((m, i + spec_ser_msg_to_client(m).len())),
{
    reveal(spec_ser_msg_to_client);
    reveal(spec_parse_msg_to_client);
    match m {
        MessageToClientModel::LobbyInfo(li) => {
            let a = spec_ser_roster_list(li.players);
            let b = spec_ser_u8(li.you.0);
            let c = spec_ser_u8(li.host.0);
            assert(spec_ser_msg_to_client(m) =~= seq![0u8] + (a + (b + c)));
            lemma_split(s, i, seq![0u8], a + (b + c));
            lemma_rt_u8(0u8, s, i);
            lemma_split(s, i + 1, a, b + c);
            lemma_rt_roster_list(li.players, s, i + 1);
            lemma_split(s, i + 1 + a.len(), b, c);
            lemma_rt_u8(li.you.0, s, i + 1 + a.len());
            lemma_rt_u8(li.host.0, s, i + 1 + a.len() + 1);
            assert(PlayerId(li.you.0) == li.you);
            assert(PlayerId(li.host.0) == li.host);
        },
        MessageToClientModel::InitializeWorld { width, height, players, dressing, player_id } => {
            let a = spec_ser_i16(width);
            let b = spec_ser_i16(height);
            let c = spec_ser_roster_list(players);
            let d = spec_ser_dressing(dressing);
            let e = spec_ser_u8(player_id.0);
            assert(spec_ser_msg_to_client(m) =~= seq![1u8] + (a + (b + (c + (d + e)))));
            lemma_split(s, i, seq![1u8], a + (b + (c + (d + e))));
            lemma_rt_u8(1u8, s, i);
            lemma_split(s, i + 1, a, b + (c + (d + e)));
            lemma_rt_i16(width, s, i + 1);
            lemma_split(s, i + 3, b, c + (d + e));
            lemma_rt_i16(height, s, i + 3);
            lemma_split(s, i + 5, c, d + e);
            lemma_rt_roster_list(players, s, i + 5);
            lemma_split(s, i + 5 + c.len(), d, e);
            lemma_rt_dressing(dressing, s, i + 5 + c.len());
            lemma_rt_u8(player_id.0, s, i + 5 + c.len() + d.len());
            assert(PlayerId(player_id.0) == player_id);
        },
        MessageToClientModel::Event(e) => {
            lemma_split(s, i, seq![2u8], spec_ser_event(e));
            lemma_rt_u8(2u8, s, i);
            lemma_event_round_trip(e, s, i + 1);
        },
        MessageToClientModel::Kick => {
            lemma_rt_u8(3u8, s, i);
        },
    }
}


/// The machine limit on an encodable client-to-server message.
pub open spec fn spec_msg_to_server_len_ok(m: crate::session::MessageToServerModel) -> bool {
    match m {
        crate::session::MessageToServerModel::Hello { name } => spec_string_len_ok(name),
        crate::session::MessageToServerModel::Action(a) => spec_action_len_ok(a),
        _ => true,
    }
}

/// The byte encoding of a client-to-server message: a tag byte and the
/// payload.
#[verifier::opaque]
pub open spec fn spec_ser_msg_to_server(m: crate::session::MessageToServerModel) -> Seq<u8> {
    match m {
        crate::session::MessageToServerModel::Hello { name } => seq![0u8] + spec_ser_string(name),
        crate::session::MessageToServerModel::Start => seq![1u8],
        crate::session::MessageToServerModel::Action(a) => seq![2u8] + spec_ser_action(a),
        crate::session::MessageToServerModel::Quit => seq![3u8],
    }
}

/// The client-to-server message a byte string encodes from position `i`.
#[verifier::opaque]
pub open spec fn spec_parse_msg_to_server(s: Seq<u8>, i: int) -> Option<
    (crate::session::MessageToServerModel, int),
> {
    match spec_parse_u8(s, i) {
        None => None,
        Some((tag, j)) => if tag == 0 {
            match spec_parse_string(s, j) {
                Some((name, j1)) => Some(
                    (crate::session::MessageToServerModel::Hello { name }, j1),
                ),
                None => None,
            }
        } else if tag == 1 {
            Some((crate::session::MessageToServerModel::Start, j))
        } else if tag == 2 {
            match spec_parse_action(s, j) {
                Some((a, j1)) => Some((crate::session::MessageToServerModel::Action(a), j1)),
                None => None,
            }
        } else if tag == 3 {
            Some((crate::session::MessageToServerModel::Quit, j))
        } else {
            None
        },
    }
}

/// Encode one client-to-server message as a self-delimiting record.
pub fn encode_msg_to_server(m: &crate::session::MessageToServer) -> (r: Vec<u8>)
    requires
        spec_ser_msg_to_server(m.model()).len() <= usize::MAX,
    ensures
        r@ == spec_ser_msg_to_server(m.model()),
{
    proof {
        reveal(spec_ser_msg_to_server);
        reveal(spec_ser_string);
    }
    let mut out: Vec<u8> = Vec::new();
    match m {
        crate::session::MessageToServer::Hello { name } => {
            ser_u8(&mut out, 0);
            ser_string(&mut out, name);
        },
        crate::session::MessageToServer::Start => {
            ser_u8(&mut out, 1);
        },
        crate::session::MessageToServer::Action(a) => {
            ser_u8(&mut out, 2);
            let mut payload = encode_action(a);
            out.append(&mut payload);
        },
        crate::session::MessageToServer::Quit => {
            ser_u8(&mut out, 3);
        },
    }
    proof {
        assert(out@ =~= spec_ser_msg_to_server(m.model()));
    }
    out
}

/// Decode one client-to-server message from a byte string.
pub fn decode_msg_to_server(s: &Vec<u8>, i: usize) -> (r: Option<
    (crate::session::MessageToServer, usize),
>)
    ensures
        match r {
            Some((v, j)) => spec_parse_msg_to_server(s@, i as int) == Some((v.model(), j as int)),
            None => spec_parse_msg_to_server(s@, i as int) is None,
        },
{
    proof {
        reveal(spec_parse_msg_to_server);
    }
    let (tag, j) = match parse_u8(s, i) {
        Some(v) => v,
        None => { return None; },
    };
    if tag == 0 {
        match parse_string(s, j) {
            Some((name, j1)) => Some((crate::session::MessageToServer::Hello { name }, j1)),
            None => None,
        }
    } else if tag == 1 {
        Some((crate::session::MessageToServer::Start, j))
    } else if tag == 2 {
        match decode_action(s, j) {
            Some((a, j1)) => Some((crate::session::MessageToServer::Action(a), j1)),
            None => None,
        }
    } else if tag == 3 {
        Some((crate::session::MessageToServer::Quit, j))
    } else {
        None
    }
}

/// Round trip for the client-to-server envelope: decoding an encoded
/// message from any stream that starts with it yields it back, exactly.
pub proof fn lemma_msg_to_server_round_trip(
    m: crate::session::MessageToServerModel,
    s: Seq<u8>,
    i: int,
)
    requires
        spec_msg_to_server_len_ok(m),
        0 <= i,
        i + spec_ser_msg_to_server(m).len() <= s.len(),
        s.subrange(i, i + spec_ser_msg_to_server(m).len()) == spec_ser_msg_to_server(m),
    ensures
        spec_parse_msg_to_server(s, i) == Some((m, i + spec_ser_msg_to_server(m).len())),
{
    reveal(spec_ser_msg_to_server);
    reveal(spec_parse_msg_to_server);
    match m {
        crate::session::MessageToServerModel::Hello { name } => {
            lemma_split(s, i, seq![0u8], spec_ser_string(name));
            lemma_rt_u8(0u8, s, i);
            lemma_rt_string(name, s, i + 1);
        },
        crate::session::MessageToServerModel::Start => {
            lemma_rt_u8(1u8, s, i);
        },
        crate::session::MessageToServerModel::Action(a) => {
            lemma_split(s, i, seq![2u8], spec_ser_action(a));
            lemma_rt_u8(2u8, s, i);
            lemma_action_round_trip(a, s, i + 1);
        },
        crate::session::MessageToServerModel::Quit => {
            lemma_rt_u8(3u8, s, i);
        },
    }
}

/// Round trip for actions: decoding an encoded action from any stream
/// that starts with it yields the action back, exactly.
pub proof fn lemma_action_round_trip(a: GameActionTypeModel, s: Seq<u8>, i: int)
    requires
        spec_action_len_ok(a),
        0 <= i,
        i + spec_ser_action(a).len() <= s.len(),
        s.subrange(i, i + spec_ser_action(a).len()) == spec_ser_action(a),
    ensures
        spec_parse_action(s, i) == Some((a, i + spec_ser_action(a).len())),
{
    match a {
        GameActionTypeModel::MoveUnit { .. } => lemma_rt_action_move_unit(a, s, i),
        GameActionTypeModel::FoundCity { .. } => lemma_rt_action_found_city(a, s, i),
        GameActionTypeModel::RenameCity { .. } => lemma_rt_action_rename_city(a, s, i),
        GameActionTypeModel::SetReady(..) => lemma_rt_action_set_ready(a, s, i),
        GameActionTypeModel::SetProducing { .. } => lemma_rt_action_set_producing(a, s, i),
        GameActionTypeModel::SetSleeping { .. } => lemma_rt_action_set_sleeping(a, s, i),
        GameActionTypeModel::SetCitizenLocked { .. } => lemma_rt_action_set_citizen_locked(
            a,
            s,
            i,
        ),
        GameActionTypeModel::Harvest { .. } => lemma_rt_action_harvest(a, s, i),
        GameActionTypeModel::SetResearch { .. } => lemma_rt_action_set_research(a, s, i),
    }
}

/// Round trip for events: decoding an encoded event from any stream
/// that starts with it yields the event back, exactly.
pub proof fn lemma_event_round_trip(e: GameEventTypeModel, s: Seq<u8>, i: int)
    requires
        spec_event_len_ok(e),
        0 <= i,
        i + spec_ser_event(e).len() <= s.len(),
        s.subrange(i, i + spec_ser_event(e).len()) == spec_ser_event(e),
    ensures
        spec_parse_event(s, i) == Some((e, i + spec_ser_event(e).len())),
{
    match e {
        GameEventTypeModel::NextTurn => lemma_rt_event_next_turn(e, s, i),
        GameEventTypeModel::MoveUnit { .. } => lemma_rt_event_move_unit(e, s, i),
        GameEventTypeModel::DeleteUnit { .. } => lemma_rt_event_delete_unit(e, s, i),
        GameEventTypeModel::FoundCity { .. } => lemma_rt_event_found_city(e, s, i),
        GameEventTypeModel::RenameCity { .. } => lemma_rt_event_rename_city(e, s, i),
        GameEventTypeModel::SetPlayerReady { .. } => lemma_rt_event_set_player_ready(e, s, i),
        GameEventTypeModel::SetProducing { .. } => lemma_rt_event_set_producing(e, s, i),
        GameEventTypeModel::NewUnit { .. } => lemma_rt_event_new_unit(e, s, i),
        GameEventTypeModel::NewBuilding { .. } => lemma_rt_event_new_building(e, s, i),
        GameEventTypeModel::Crash { .. } => lemma_rt_event_crash(e, s, i),
        GameEventTypeModel::SetSleeping { .. } => lemma_rt_event_set_sleeping(e, s, i),
        GameEventTypeModel::SetCitizenLocked { .. } => lemma_rt_event_set_citizen_locked(e, s, i),
        GameEventTypeModel::IncreasePopulationFromFood { .. } => lemma_rt_event_increase_population(
            e,
            s,
            i,
        ),
        GameEventTypeModel::AddTerritoryToCity { .. } => lemma_rt_event_add_territory(e, s, i),
        GameEventTypeModel::Harvest { .. } => lemma_rt_event_harvest(e, s, i),
        GameEventTypeModel::DepleteMovement { .. } => lemma_rt_event_deplete_movement(e, s, i),
        GameEventTypeModel::UseCharge { .. } => lemma_rt_event_use_charge(e, s, i),
        GameEventTypeModel::FinishResearch { .. } => lemma_rt_event_finish_research(e, s, i),
        GameEventTypeModel::SetResearch { .. } => lemma_rt_event_set_research(e, s, i),
    }
}

} // verus!
