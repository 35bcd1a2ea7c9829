//! The generic tagged value: the discriminated sum of everything the wire
//! format can carry, its mathematical model, and the spec-level encoding
//! of whole values.
//!
//! Text is carried as UTF-8 bytes (`Vec<u8>`): the codec moves raw bytes
//! and never fails on text encoding issues, which are left to its callers.
//! A float is carried by its IEEE-754 bit pattern, so bit-exact round trips
//! are stated directly.  A map is an ordered list of key/value pairs, which
//! fixes the encoding order of its entries.
use vstd::prelude::*;
use crate::consts::FALSE;
use crate::consts::FLOAT_64;
use crate::consts::LIST_16;
use crate::consts::LIST_32;
use crate::consts::LIST_8;
use crate::consts::MAP_16;
use crate::consts::MAP_32;
use crate::consts::MAP_8;
use crate::consts::NULL;
use crate::consts::STRING_16;
use crate::consts::STRING_32;
use crate::consts::STRING_8;
use crate::consts::TINY_LIST;
use crate::consts::TINY_MAP;
use crate::consts::TINY_STRING;
use crate::consts::TRUE;
use crate::consts::END_OF_STREAM;
use crate::structs::Struct;
use crate::structs::StructV;
use crate::structs::view_struct;
use crate::types::PackType;
use crate::types::classify;
use crate::wire::be_bytes;
use crate::wire::dec_bool;
use crate::wire::dec_float_bits;
use crate::wire::dec_int;
use crate::wire::dec_list_head;
use crate::wire::dec_string;
use crate::wire::enc_head4;
use crate::wire::enc_int;
use crate::wire::fits;

verus! {

broadcast use vstd::std_specs::vec::axiom_vec_index_decreases;

use vstd::pervasive::arbitrary;

/// A value of the wire format's type system.
#[derive(Debug, PartialEq)]
pub enum Value {
    Null,
    Boolean(bool),
    Int(i64),
    /// A 64-bit float, carried by its IEEE-754 bit pattern.
    Float(u64),
    /// A text string, carried as its UTF-8 bytes.
    String(Vec<u8>),
    List(Vec<Value>),
    /// A map with text keys, as an ordered list of key/value pairs.
    Dict(Vec<(Vec<u8>, Value)>),
    Struct(Struct),
}

/// The mathematical model of a [`Value`].
pub enum ValueV {
    Null,
    Boolean(bool),
    Int(i64),
    Float(u64),
    String(Seq<u8>),
    List(Seq<ValueV>),
    Dict(Seq<(Seq<u8>, ValueV)>),
    Struct(StructV),
}

// ---------------------------------------------------------------------------
// Views
// ---------------------------------------------------------------------------

pub open spec fn view_value(v: Value) -> ValueV
    decreases v,
{
    match v {
        Value::Null => ValueV::Null,
        Value::Boolean(b) => ValueV::Boolean(b),
        Value::Int(n) => ValueV::Int(n),
        Value::Float(bits) => ValueV::Float(bits),
        Value::String(s) => ValueV::String(s@),
        Value::List(xs) => ValueV::List(view_values(xs)),
        Value::Dict(ps) => ValueV::Dict(view_pairs(ps)),
        Value::Struct(st) => ValueV::Struct(view_struct(st)),
    }
}

pub open spec fn view_values(xs: Vec<Value>) -> Seq<ValueV>
    decreases xs,
{
    Seq::new(
        xs.len() as nat,
        |i: int|
            if 0 <= i < xs.len() {
                view_value(xs[i])
            } else {
                arbitrary()
            },
    )
}

pub open spec fn view_pairs(ps: Vec<(Vec<u8>, Value)>) -> Seq<(Seq<u8>, ValueV)>
    decreases ps,
{
    Seq::new(
        ps.len() as nat,
        |i: int|
            if 0 <= i < ps.len() {
                (ps[i].0@, view_value(ps[i].1))
            } else {
                arbitrary()
            },
    )
}

// ---------------------------------------------------------------------------
// Spec encoding of whole values
// ---------------------------------------------------------------------------

/// The encoding of a string: four-tier size header, then the raw bytes.
pub open spec fn enc_string(s: Seq<u8>) -> Seq<u8> {
    enc_head4(s.len() as int, TINY_STRING, STRING_8, STRING_16, STRING_32) + s
}

/// The canonical encoding of a whole value.
pub open spec fn enc_value(v: ValueV) -> Seq<u8>
    decreases v, 2int,
{
    match v {
        ValueV::Null => seq![NULL],
        ValueV::Boolean(b) => seq![if b { TRUE } else { FALSE }],
        ValueV::Int(n) => enc_int(n as int),
        ValueV::Float(bits) => seq![FLOAT_64] + be_bytes(bits as int, 8),
        ValueV::String(s) => enc_string(s),
        ValueV::List(xs) => enc_head4(xs.len() as int, TINY_LIST, LIST_8, LIST_16, LIST_32)
            + enc_values(xs),
        ValueV::Dict(ps) => enc_head4(ps.len() as int, TINY_MAP, MAP_8, MAP_16, MAP_32)
            + enc_pairs(ps),
        ValueV::Struct(st) => crate::structs::enc_record(st),
    }
}

/// The concatenated encodings of a run of values, in order.
pub open spec fn enc_values(xs: Seq<ValueV>) -> Seq<u8>
    decreases xs, 3int,
{
    if xs.len() == 0 {
        seq![]
    } else {
        enc_value(xs[0]) + enc_values(xs.subrange(1, xs.len() as int))
    }
}

/// The concatenated encodings of a run of key/value pairs: each key (a
/// string) then its value, in order.
pub open spec fn enc_pairs(ps: Seq<(Seq<u8>, ValueV)>) -> Seq<u8>
    decreases ps, 3int,
{
    if ps.len() == 0 {
        seq![]
    } else {
        enc_string(ps[0].0) + enc_value(ps[0].1) + enc_pairs(ps.subrange(1, ps.len() as int))
    }
}

// ---------------------------------------------------------------------------
// Encodability: exactly the values every header tier of which fits
// ---------------------------------------------------------------------------

/// A size no header tier can carry makes the value unencodable; everything
/// else encodes.  The bound is the 32-bit tier's signed-positive maximum.
pub open spec fn can_enc_value(v: ValueV) -> bool
    decreases v, 2int,
{
    match v {
        ValueV::Null => true,
        ValueV::Boolean(_) => true,
        ValueV::Int(_) => true,
        ValueV::Float(_) => true,
        ValueV::String(s) => s.len() <= 0x7FFFFFFF,
        ValueV::List(xs) => xs.len() <= 0x7FFFFFFF && can_enc_values(xs),
        ValueV::Dict(ps) => ps.len() <= 0x7FFFFFFF && can_enc_pairs(ps),
        ValueV::Struct(st) => crate::structs::can_enc_record(st),
    }
}

pub open spec fn can_enc_values(xs: Seq<ValueV>) -> bool
    decreases xs, 3int,
{
    if xs.len() == 0 {
        true
    } else {
        can_enc_value(xs[0]) && can_enc_values(xs.subrange(1, xs.len() as int))
    }
}

pub open spec fn can_enc_pairs(ps: Seq<(Seq<u8>, ValueV)>) -> bool
    decreases ps, 3int,
{
    if ps.len() == 0 {
        true
    } else {
        ps[0].0.len() <= 0x7FFFFFFF && can_enc_value(ps[0].1) && can_enc_pairs(
            ps.subrange(1, ps.len() as int),
        )
    }
}

// ---------------------------------------------------------------------------
// Spec decoding of whole values
//
// The decoder accepts any header tier, canonical or not.  Positions move
// strictly forward; each recursive step is guarded by the bounds the real
// decoder maintains, which also ground the termination measure.
// ---------------------------------------------------------------------------

/// Decodes a whole value at `i`, dispatching on the classified marker.
pub open spec fn dec_value(b: Seq<u8>, i: int) -> Option<(ValueV, int)>
    decreases b.len() - i, 3int,
{
    if !fits(b, i, 1) {
        None
    } else {
        match classify(b[i]) {
            PackType::Null => Some((ValueV::Null, i + 1)),
            PackType::Boolean => match dec_bool(b, i) {
                Some((x, j)) => Some((ValueV::Boolean(x), j)),
                None => None,
            },
            PackType::Int => match dec_int(b, i) {
                Some((n, j)) => Some((ValueV::Int(n), j)),
                None => None,
            },
            PackType::Float => match dec_float_bits(b, i) {
                Some((bits, j)) => Some((ValueV::Float(bits), j)),
                None => None,
            },
            PackType::String => match dec_string(b, i) {
                Some((s, j)) => Some((ValueV::String(s), j)),
                None => None,
            },
            PackType::List => match dec_list_head(b, i) {
                Some((s, j)) => {
                    if s == 0 {
                        Some((ValueV::List(seq![]), j))
                    } else if !(i < j <= b.len()) {
                        None
                    } else if s == -1 {
                        match dec_stream_elems(b, j) {
                            Some((xs, k)) => Some((ValueV::List(xs), k)),
                            None => None,
                        }
                    } else if s < 0 {
                        None
                    } else {
                        match dec_elems(b, j, s) {
                            Some((xs, k)) => Some((ValueV::List(xs), k)),
                            None => None,
                        }
                    }
                },
                None => None,
            },
            PackType::Dict => match crate::structs::dec_dict(b, i) {
                Some((ps, j)) => Some((ValueV::Dict(ps), j)),
                None => None,
            },
            PackType::Struct => match crate::structs::dec_record(b, i) {
                Some((st, j)) => Some((ValueV::Struct(st), j)),
                None => None,
            },
            _ => None,
        }
    }
}

/// Decodes exactly `n` values in a row.
pub open spec fn dec_elems(b: Seq<u8>, i: int, n: int) -> Option<(Seq<ValueV>, int)>
    decreases b.len() - i, 4int,
{
    if n <= 0 {
        Some((seq![], i))
    } else {
        match dec_value(b, i) {
            Some((x, j)) => {
                if i < j <= b.len() {
                    match dec_elems(b, j, n - 1) {
                        Some((xs, k)) => Some((seq![x] + xs, k)),
                        None => None,
                    }
                } else {
                    None
                }
            },
            None => None,
        }
    }
}

/// Decodes values until the end-of-stream byte, which is consumed without
/// being counted.
pub open spec fn dec_stream_elems(b: Seq<u8>, i: int) -> Option<(Seq<ValueV>, int)>
    decreases b.len() - i, 4int,
{
    if !fits(b, i, 1) {
        None
    } else if b[i] == END_OF_STREAM {
        Some((seq![], i + 1))
    } else {
        match dec_value(b, i) {
            Some((x, j)) => {
                if i < j <= b.len() {
                    match dec_stream_elems(b, j) {
                        Some((xs, k)) => Some((seq![x] + xs, k)),
                        None => None,
                    }
                } else {
                    None
                }
            },
            None => None,
        }
    }
}

/// Decodes exactly `n` key/value pairs in a row.
pub open spec fn dec_pairs(b: Seq<u8>, i: int, n: int) -> Option<(Seq<(Seq<u8>, ValueV)>, int)>
    decreases b.len() - i, 4int,
{
    if n <= 0 {
        Some((seq![], i))
    } else {
        match dec_string(b, i) {
            Some((key, j)) => {
                if i < j <= b.len() {
                    match dec_value(b, j) {
                        Some((x, j2)) => {
                            if j < j2 <= b.len() {
                                match dec_pairs(b, j2, n - 1) {
                                    Some((ps, k)) => Some((seq![(key, x)] + ps, k)),
                                    None => None,
                                }
                            } else {
                                None
                            }
                        },
                        None => None,
                    }
                } else {
                    None
                }
            },
            None => None,
        }
    }
}

/// Decodes key/value pairs until the end-of-stream byte, which is consumed
/// without being counted.
pub open spec fn dec_stream_pairs(b: Seq<u8>, i: int) -> Option<(Seq<(Seq<u8>, ValueV)>, int)>
    decreases b.len() - i, 4int,
{
    if !fits(b, i, 1) {
        None
    } else if b[i] == END_OF_STREAM {
        Some((seq![], i + 1))
    } else {
        match dec_string(b, i) {
            Some((key, j)) => {
                if i < j <= b.len() {
                    match dec_value(b, j) {
                        Some((x, j2)) => {
                            if j < j2 <= b.len() {
                                match dec_stream_pairs(b, j2) {
                                    Some((ps, k)) => Some((seq![(key, x)] + ps, k)),
                                    None => None,
                                }
                            } else {
                                None
                            }
                        },
                        None => None,
                    }
                } else {
                    None
                }
            },
            None => None,
        }
    }
}

// ---------------------------------------------------------------------------
// Facts about runs
// ---------------------------------------------------------------------------

pub proof fn lemma_enc_values_push(s: Seq<ValueV>, x: ValueV)
    ensures
        enc_values(s.push(x)) == enc_values(s) + enc_value(x),
        can_enc_values(s.push(x)) == (can_enc_values(s) && can_enc_value(x)),
    decreases s.len(),
{
    let t = s.push(x);
    if s.len() == 0 {
        assert(t.subrange(1, t.len() as int) =~= s);
        assert(t[0] == x);
        assert(enc_values(t) =~= enc_values(s) + enc_value(x));
    } else {
        assert(t[0] == s[0]);
        assert(t.subrange(1, t.len() as int) =~= s.subrange(1, s.len() as int).push(x));
        lemma_enc_values_push(s.subrange(1, s.len() as int), x);
        assert(enc_values(t) =~= enc_values(s) + enc_value(x));
    }
}

pub proof fn lemma_enc_pairs_push(s: Seq<(Seq<u8>, ValueV)>, x: (Seq<u8>, ValueV))
    ensures
        enc_pairs(s.push(x)) == enc_pairs(s) + enc_string(x.0) + enc_value(x.1),
        can_enc_pairs(s.push(x)) == (can_enc_pairs(s) && x.0.len() <= 0x7FFFFFFF && can_enc_value(
            x.1,
        )),
    decreases s.len(),
{
    let t = s.push(x);
    if s.len() == 0 {
        assert(t.subrange(1, t.len() as int) =~= s);
        assert(t[0] == x);
        assert(enc_pairs(t) =~= enc_pairs(s) + enc_string(x.0) + enc_value(x.1));
    } else {
        assert(t[0] == s[0]);
        assert(t.subrange(1, t.len() as int) =~= s.subrange(1, s.len() as int).push(x));
        lemma_enc_pairs_push(s.subrange(1, s.len() as int), x);
        assert(enc_pairs(t) =~= enc_pairs(s) + enc_string(x.0) + enc_value(x.1));
    }
}

/// Every element of an encodable run is itself encodable.
pub proof fn lemma_can_enc_values_index(s: Seq<ValueV>, k: int)
    requires
        0 <= k < s.len(),
        can_enc_values(s),
    ensures
        can_enc_value(s[k]),
    decreases k,
{
    if k > 0 {
        lemma_can_enc_values_index(s.subrange(1, s.len() as int), k - 1);
    }
}

/// Every key and value of an encodable pair run is itself encodable.
pub proof fn lemma_can_enc_pairs_index(s: Seq<(Seq<u8>, ValueV)>, k: int)
    requires
        0 <= k < s.len(),
        can_enc_pairs(s),
    ensures
        s[k].0.len() <= 0x7FFFFFFF,
        can_enc_value(s[k].1),
    decreases k,
{
    if k > 0 {
        lemma_can_enc_pairs_index(s.subrange(1, s.len() as int), k - 1);
    }
}

} // verus!
