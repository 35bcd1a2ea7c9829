//! The round-trip laws of the codec: decoding a canonical encoding yields
//! the original value, from any position of any buffer that carries it.
//!
//! The laws are stated over the spec encoders and decoders that the
//! executable code is verified against, so they transfer to any sequence
//! of verified `pack` calls followed by verified `unpack` calls.
use vstd::prelude::*;
use crate::consts::END_OF_STREAM;
use crate::consts::LIST_16;
use crate::consts::LIST_32;
use crate::consts::LIST_8;
use crate::consts::LIST_STREAM;
use crate::consts::MAP_16;
use crate::consts::MAP_32;
use crate::consts::MAP_8;
use crate::consts::STRING_16;
use crate::consts::STRING_32;
use crate::consts::STRING_8;
use crate::consts::TINY_LIST;
use crate::consts::TINY_MAP;
use crate::consts::TINY_STRING;
use crate::structs::NodeV;
use crate::structs::PathV;
use crate::structs::RelationshipV;
use crate::structs::StructV;
use crate::structs::UnboundRelationshipV;
use crate::structs::arity_of;
use crate::structs::can_enc_dict;
use crate::structs::can_enc_node;
use crate::structs::can_enc_nodes;
use crate::structs::can_enc_path;
use crate::structs::can_enc_record;
use crate::structs::can_enc_relationship;
use crate::structs::can_enc_strs;
use crate::structs::can_enc_unbound;
use crate::structs::can_enc_unbounds;
use crate::structs::dec_dict;
use crate::structs::dec_i64_list;
use crate::structs::dec_i64s_n;
use crate::structs::dec_node;
use crate::structs::dec_node_list;
use crate::structs::dec_nodes_n;
use crate::structs::dec_path;
use crate::structs::dec_record;
use crate::structs::dec_relationship;
use crate::structs::dec_str_list;
use crate::structs::dec_strs_n;
use crate::structs::dec_unbound;
use crate::structs::dec_unbound_list;
use crate::structs::dec_unbounds_n;
use crate::structs::enc_dict;
use crate::structs::enc_i64_list;
use crate::structs::enc_i64s;
use crate::structs::enc_node;
use crate::structs::enc_nodes;
use crate::structs::enc_path;
use crate::structs::enc_record;
use crate::structs::enc_relationship;
use crate::structs::enc_str_list;
use crate::structs::enc_strs;
use crate::structs::enc_unbound;
use crate::structs::enc_unbounds;
use crate::structs::sig_of;
use crate::types::PackType;
use crate::types::classify;
use crate::value::ValueV;
use crate::value::can_enc_pairs;
use crate::value::can_enc_value;
use crate::value::can_enc_values;
use crate::value::dec_elems;
use crate::value::dec_pairs;
use crate::value::dec_stream_elems;
use crate::value::dec_stream_pairs;
use crate::value::dec_value;
use crate::value::enc_pairs;
use crate::value::enc_string;
use crate::value::enc_value;
use crate::value::enc_values;
use crate::wire::be_bytes;
use crate::consts::BYTES_16;
use crate::consts::BYTES_32;
use crate::consts::BYTES_8;
use crate::wire::dec_bytes;
use crate::wire::dec_bytes_head;
use crate::wire::dec_int;
use crate::wire::enc_bytes;
use crate::wire::enc_head3;
use crate::wire::dec_list_head;
use crate::wire::dec_map_head;
use crate::wire::dec_signed;
use crate::wire::dec_string;
use crate::wire::dec_string_head;
use crate::wire::dec_struct_head;
use crate::wire::enc_head4;
use crate::wire::enc_int;
use crate::wire::enc_struct_head;
use crate::wire::lemma_be_bytes_len;
use crate::wire::lemma_dec_enc_int;
use crate::wire::lemma_p256_vals;
use crate::wire::lemma_sext_srep;
use crate::wire::lemma_ube_be_bytes;
use crate::wire::p256;
use crate::wire::peek_sig;
use crate::wire::sext;
use crate::wire::srep;

verus! {

// ---------------------------------------------------------------------------
// Splitting a buffer that carries a concatenation
// ---------------------------------------------------------------------------

/// A buffer region that carries `s1 + s2` carries `s1` and then `s2`.
pub proof fn lemma_split(b: Seq<u8>, i: int, s1: Seq<u8>, s2: Seq<u8>)
    requires
        0 <= i,
        i + s1.len() + s2.len() <= b.len(),
        b.subrange(i, i + s1.len() + s2.len()) == s1 + s2,
    ensures
        b.subrange(i, i + s1.len()) == s1,
        b.subrange(i + s1.len(), i + s1.len() + s2.len()) == s2,
{
    let whole = b.subrange(i, i + s1.len() + s2.len());
    assert(b.subrange(i, i + s1.len()) =~= s1) by {
        assert(forall|k: int|
            0 <= k < s1.len() ==> #[trigger] b.subrange(i, i + s1.len())[k] == whole[k]);
    };
    assert(b.subrange(i + s1.len(), i + s1.len() + s2.len()) =~= s2) by {
        assert(forall|k: int|
            0 <= k < s2.len() ==> #[trigger] b.subrange(
                i + s1.len(),
                i + s1.len() + s2.len(),
            )[k] == whole[s1.len() + k]);
    };
}

// ---------------------------------------------------------------------------
// Headers decode back to the size they were written for
// ---------------------------------------------------------------------------

/// A big-endian payload written for a signed-positive value reads back as
/// that value.
proof fn lemma_dec_signed_of_be(size: int, b: Seq<u8>, i: int, w: nat)
    requires
        0 <= size < p256(w) / 2,
        0 <= i,
        i + w <= b.len(),
        b.subrange(i, i + w) == be_bytes(size, w),
    ensures
        dec_signed(b, i, w) == Some((size, i + w)),
{
    lemma_sext_srep(size, w);
    lemma_ube_be_bytes(size, w);
}

/// The four-tier size header length, by tier.
pub proof fn lemma_enc_head4_len(size: int, h4: u8, h8: u8, h16: u8, h32: u8)
    requires
        0 <= size <= 0x7FFFFFFF,
    ensures
        size <= 15 ==> enc_head4(size, h4, h8, h16, h32).len() == 1,
        15 < size <= 0x7F ==> enc_head4(size, h4, h8, h16, h32).len() == 2,
        0x7F < size <= 0x7FFF ==> enc_head4(size, h4, h8, h16, h32).len() == 3,
        0x7FFF < size ==> enc_head4(size, h4, h8, h16, h32).len() == 5,
{
    if size > 0x7F && size <= 0x7FFF {
        lemma_be_bytes_len(size, 2);
    }
    if size > 0x7FFF {
        lemma_be_bytes_len(size, 4);
    }
}

/// Decoding a written string header yields its size, and the first byte
/// opens the string family.
proof fn lemma_dec_string_head_of_enc(size: int, b: Seq<u8>, i: int)
    requires
        0 <= size <= 0x7FFFFFFF,
        0 <= i,
        i + enc_head4(size, TINY_STRING, STRING_8, STRING_16, STRING_32).len() <= b.len(),
        b.subrange(i, i + enc_head4(size, TINY_STRING, STRING_8, STRING_16, STRING_32).len())
            == enc_head4(size, TINY_STRING, STRING_8, STRING_16, STRING_32),
    ensures
        dec_string_head(b, i) == Some(
            (size, i + enc_head4(size, TINY_STRING, STRING_8, STRING_16, STRING_32).len()),
        ),
        0x80 <= b[i] <= 0x8F || b[i] == STRING_8 || b[i] == STRING_16 || b[i] == STRING_32,
{
    lemma_enc_head4_len(size, TINY_STRING, STRING_8, STRING_16, STRING_32);
    lemma_head4_generic(size, b, i, TINY_STRING, STRING_8, STRING_16, STRING_32);
}

/// Decoding a written list header yields its size, and the first byte
/// opens the list family.
proof fn lemma_dec_list_head_of_enc(size: int, b: Seq<u8>, i: int)
    requires
        0 <= size <= 0x7FFFFFFF,
        0 <= i,
        i + enc_head4(size, TINY_LIST, LIST_8, LIST_16, LIST_32).len() <= b.len(),
        b.subrange(i, i + enc_head4(size, TINY_LIST, LIST_8, LIST_16, LIST_32).len())
            == enc_head4(size, TINY_LIST, LIST_8, LIST_16, LIST_32),
    ensures
        dec_list_head(b, i) == Some(
            (size, i + enc_head4(size, TINY_LIST, LIST_8, LIST_16, LIST_32).len()),
        ),
        0x90 <= b[i] <= 0x9F || b[i] == LIST_8 || b[i] == LIST_16 || b[i] == LIST_32,
{
    lemma_enc_head4_len(size, TINY_LIST, LIST_8, LIST_16, LIST_32);
    lemma_head4_generic(size, b, i, TINY_LIST, LIST_8, LIST_16, LIST_32);
}

/// Decoding a written map header yields its size, and the first byte opens
/// the map family.
proof fn lemma_dec_map_head_of_enc(size: int, b: Seq<u8>, i: int)
    requires
        0 <= size <= 0x7FFFFFFF,
        0 <= i,
        i + enc_head4(size, TINY_MAP, MAP_8, MAP_16, MAP_32).len() <= b.len(),
        b.subrange(i, i + enc_head4(size, TINY_MAP, MAP_8, MAP_16, MAP_32).len()) == enc_head4(
            size,
            TINY_MAP,
            MAP_8,
            MAP_16,
            MAP_32,
        ),
    ensures
        dec_map_head(b, i) == Some(
            (size, i + enc_head4(size, TINY_MAP, MAP_8, MAP_16, MAP_32).len()),
        ),
        0xA0 <= b[i] <= 0xAF || b[i] == MAP_8 || b[i] == MAP_16 || b[i] == MAP_32,
{
    lemma_enc_head4_len(size, TINY_MAP, MAP_8, MAP_16, MAP_32);
    lemma_head4_generic(size, b, i, TINY_MAP, MAP_8, MAP_16, MAP_32);
}

/// The tier arithmetic shared by the three four-tier header families.
proof fn lemma_head4_generic(size: int, b: Seq<u8>, i: int, h4: u8, h8: u8, h16: u8, h32: u8)
    requires
        0 <= size <= 0x7FFFFFFF,
        h4 == TINY_STRING || h4 == TINY_LIST || h4 == TINY_MAP,
        0 <= i,
        i + enc_head4(size, h4, h8, h16, h32).len() <= b.len(),
        b.subrange(i, i + enc_head4(size, h4, h8, h16, h32).len()) == enc_head4(
            size,
            h4,
            h8,
            h16,
            h32,
        ),
    ensures
        size <= 15 ==> b[i] == (h4 + size) as u8 && enc_head4(size, h4, h8, h16, h32).len() == 1,
        size > 15 ==> b[i] == (if size <= 0x7F {
            h8
        } else if size <= 0x7FFF {
            h16
        } else {
            h32
        }),
        size > 15 && size <= 0x7F ==> dec_signed(b, i + 1, 1) == Some((size, i + 2)),
        size > 0x7F && size <= 0x7FFF ==> dec_signed(b, i + 1, 2) == Some((size, i + 3)),
        size > 0x7FFF ==> dec_signed(b, i + 1, 4) == Some((size, i + 5)),
{
    lemma_p256_vals();
    let e = enc_head4(size, h4, h8, h16, h32);
    lemma_enc_head4_len(size, h4, h8, h16, h32);
    assert(b[i] == e[0]);
    if size <= 15 {
    } else if size <= 0x7F {
        assert(b.subrange(i + 1, i + 2) =~= be_bytes(size, 1)) by {
            reveal_with_fuel(be_bytes, 2);
            assert(b.subrange(i + 1, i + 2)[0] == e[1]);
        };
        lemma_dec_signed_of_be(size, b, i + 1, 1);
    } else if size <= 0x7FFF {
        lemma_be_bytes_len(size, 2);
        assert(b.subrange(i + 1, i + 3) =~= be_bytes(size, 2)) by {
            assert(forall|k: int|
                0 <= k < 2 ==> #[trigger] b.subrange(i + 1, i + 3)[k] == e[1 + k]);
        };
        lemma_dec_signed_of_be(size, b, i + 1, 2);
    } else {
        lemma_be_bytes_len(size, 4);
        assert(b.subrange(i + 1, i + 5) =~= be_bytes(size, 4)) by {
            assert(forall|k: int|
                0 <= k < 4 ==> #[trigger] b.subrange(i + 1, i + 5)[k] == e[1 + k]);
        };
        lemma_dec_signed_of_be(size, b, i + 1, 4);
    }
}

/// Decoding a written struct header yields its field count, with the
/// signature byte sitting exactly where the lookahead expects it.  Holds
/// for the counts the 8-bit tier can carry.
proof fn lemma_dec_struct_head_of_enc(size: int, sign: u8, b: Seq<u8>, i: int)
    requires
        0 <= size <= 0x7F,
        0 <= i,
        i + enc_struct_head(size, sign).len() <= b.len(),
        b.subrange(i, i + enc_struct_head(size, sign).len()) == enc_struct_head(size, sign),
    ensures
        dec_struct_head(b, i) == Some((size, i + enc_struct_head(size, sign).len() - 1)),
        b[i + enc_struct_head(size, sign).len() - 1] == sign,
        peek_sig(b, i) == Some(sign),
        enc_struct_head(size, sign).len() == 2 || enc_struct_head(size, sign).len() == 3,
        0xB0 <= b[i] <= 0xBF || b[i] == 0xDC,
{
    lemma_p256_vals();
    let e = enc_struct_head(size, sign);
    if size <= 15 {
        assert(e.len() == 2);
        assert(b[i] == e[0] && b[i + 1] == e[1]);
    } else {
        assert(enc_int(size) =~= seq![size as u8]);
        assert(e =~= seq![0xDCu8, size as u8, sign]);
        assert(e.len() == 3);
        assert(b[i] == e[0] && b[i + 1] == e[1] && b[i + 2] == e[2]);
        assert(b.subrange(i + 1, i + 2) =~= be_bytes(size, 1)) by {
            reveal_with_fuel(be_bytes, 2);
        };
        lemma_dec_signed_of_be(size, b, i + 1, 1);
    }
}

// ---------------------------------------------------------------------------
// Integer and string round trips
// ---------------------------------------------------------------------------

/// The canonical integer encoding always picks the narrowest sufficient
/// tier: one byte for the inline domain, then 2, 3, 5 and 9 bytes as the
/// domains widen.
pub proof fn lemma_enc_int_len(n: i64)
    ensures
        -16 <= n <= 127 ==> enc_int(n as int).len() == 1,
        -128 <= n < -16 ==> enc_int(n as int).len() == 2,
        (-0x8000 <= n < -128 || 127 < n <= 0x7FFF) ==> enc_int(n as int).len() == 3,
        (-0x80000000 <= n < -0x8000 || 0x7FFF < n <= 0x7FFFFFFF) ==> enc_int(n as int).len() == 5,
        (n < -0x80000000 || 0x7FFFFFFF < n) ==> enc_int(n as int).len() == 9,
{
    lemma_p256_vals();
    if -0x8000 <= n < -128 || 127 < n <= 0x7FFF {
        lemma_be_bytes_len(srep(n as int, 2), 2);
    } else if -0x80000000 <= n < -0x8000 || 0x7FFF < n <= 0x7FFFFFFF {
        lemma_be_bytes_len(srep(n as int, 4), 4);
    } else if n < -0x80000000 || 0x7FFFFFFF < n {
        lemma_be_bytes_len(srep(n as int, 8), 8);
    }
}

/// Round trip for integers: decoding a canonical encoding, wherever it
/// stands in a buffer, yields the integer back.
pub proof fn lemma_int_round_trip(n: i64)
    ensures
        dec_int(enc_int(n as int), 0) == Some((n, enc_int(n as int).len() as int)),
{
    let e = enc_int(n as int);
    assert(e.subrange(0, e.len() as int) =~= e);
    lemma_dec_enc_int(n, e, 0);
}

/// The three-tier size header length, by tier.
pub proof fn lemma_enc_head3_len(size: int, h8: u8, h16: u8, h32: u8)
    requires
        0 <= size <= 0x7FFFFFFF,
    ensures
        size <= 0x7F ==> enc_head3(size, h8, h16, h32).len() == 2,
        0x7F < size <= 0x7FFF ==> enc_head3(size, h8, h16, h32).len() == 3,
        0x7FFF < size ==> enc_head3(size, h8, h16, h32).len() == 5,
{
    if size > 0x7F && size <= 0x7FFF {
        lemma_be_bytes_len(size, 2);
    }
    if size > 0x7FFF {
        lemma_be_bytes_len(size, 4);
    }
}

/// Decoding a written byte-array header yields its size.
proof fn lemma_dec_bytes_head_of_enc(size: int, b: Seq<u8>, i: int)
    requires
        0 <= size <= 0x7FFFFFFF,
        0 <= i,
        i + enc_head3(size, BYTES_8, BYTES_16, BYTES_32).len() <= b.len(),
        b.subrange(i, i + enc_head3(size, BYTES_8, BYTES_16, BYTES_32).len()) == enc_head3(
            size,
            BYTES_8,
            BYTES_16,
            BYTES_32,
        ),
    ensures
        dec_bytes_head(b, i) == Some(
            (size, i + enc_head3(size, BYTES_8, BYTES_16, BYTES_32).len()),
        ),
{
    lemma_p256_vals();
    lemma_enc_head3_len(size, BYTES_8, BYTES_16, BYTES_32);
    let e = enc_head3(size, BYTES_8, BYTES_16, BYTES_32);
    assert(b[i] == e[0]);
    if size <= 0x7F {
        assert(b.subrange(i + 1, i + 2) =~= be_bytes(size, 1)) by {
            reveal_with_fuel(be_bytes, 2);
            assert(b.subrange(i + 1, i + 2)[0] == e[1]);
        };
        lemma_dec_signed_of_be(size, b, i + 1, 1);
    } else if size <= 0x7FFF {
        lemma_be_bytes_len(size, 2);
        assert(b.subrange(i + 1, i + 3) =~= be_bytes(size, 2)) by {
            assert(forall|k: int|
                0 <= k < 2 ==> #[trigger] b.subrange(i + 1, i + 3)[k] == e[1 + k]);
        };
        lemma_dec_signed_of_be(size, b, i + 1, 2);
    } else {
        lemma_be_bytes_len(size, 4);
        assert(b.subrange(i + 1, i + 5) =~= be_bytes(size, 4)) by {
            assert(forall|k: int|
                0 <= k < 4 ==> #[trigger] b.subrange(i + 1, i + 5)[k] == e[1 + k]);
        };
        lemma_dec_signed_of_be(size, b, i + 1, 4);
    }
}

/// Round trip for byte arrays, from any position of a buffer that carries
/// the encoding.
pub proof fn lemma_bytes_round_trip(s: Seq<u8>, b: Seq<u8>, i: int)
    requires
        s.len() <= 0x7FFFFFFF,
        0 <= i,
        i + enc_bytes(s).len() <= b.len(),
        b.subrange(i, i + enc_bytes(s).len()) == enc_bytes(s),
    ensures
        dec_bytes(b, i) == Some((s, i + enc_bytes(s).len())),
        i < i + enc_bytes(s).len(),
{
    let h = enc_head3(s.len() as int, BYTES_8, BYTES_16, BYTES_32);
    lemma_enc_head3_len(s.len() as int, BYTES_8, BYTES_16, BYTES_32);
    lemma_split(b, i, h, s);
    lemma_dec_bytes_head_of_enc(s.len() as int, b, i);
    let j = i + h.len();
    if s.len() == 0 {
        assert(s =~= Seq::<u8>::empty());
    } else {
        assert(b.subrange(j, j + s.len()) == s);
    }
}

/// Round trip for strings, from any position of a buffer that carries the
/// encoding.
pub proof fn lemma_string_round_trip(s: Seq<u8>, b: Seq<u8>, i: int)
    requires
        s.len() <= 0x7FFFFFFF,
        0 <= i,
        i + enc_string(s).len() <= b.len(),
        b.subrange(i, i + enc_string(s).len()) == enc_string(s),
    ensures
        dec_string(b, i) == Some((s, i + enc_string(s).len())),
        i < i + enc_string(s).len(),
        0x80 <= b[i] <= 0x8F || b[i] == STRING_8 || b[i] == STRING_16 || b[i] == STRING_32,
{
    let h = enc_head4(s.len() as int, TINY_STRING, STRING_8, STRING_16, STRING_32);
    lemma_enc_head4_len(s.len() as int, TINY_STRING, STRING_8, STRING_16, STRING_32);
    lemma_split(b, i, h, s);
    lemma_dec_string_head_of_enc(s.len() as int, b, i);
    let j = i + h.len();
    if s.len() == 0 {
        assert(dec_string(b, i) == Some((b.subrange(j, j), i + enc_string(s).len())) || s.len()
            == 0);
        assert(s =~= Seq::<u8>::empty());
    } else {
        assert(b.subrange(j, j + s.len()) == s);
    }
}


// ---------------------------------------------------------------------------
// Round trip for whole values
//
// Encoding a value and decoding the result, wherever the bytes stand in a
// larger buffer, yields the value back.  The lemmas follow the mutual
// structure of the encoders and decoders.
// ---------------------------------------------------------------------------

/// Every encoding starts with at least one marker byte.
proof fn lemma_enc_value_len_pos(v: ValueV)
    ensures
        enc_value(v).len() >= 1,
{
    lemma_p256_vals();
    match v {
        ValueV::Null => {},
        ValueV::Boolean(_) => {},
        ValueV::Int(n) => {
            lemma_enc_int_len(n);
        },
        ValueV::Float(bits) => {
            lemma_be_bytes_len(bits as int, 8);
        },
        ValueV::String(s) => {},
        ValueV::List(xs) => {},
        ValueV::Dict(ps) => {},
        ValueV::Struct(st) => {
            lemma_enc_record_head_len(st);
        },
    }
}

/// A record's encoding starts with its two-byte tiny struct header.
proof fn lemma_enc_record_head_len(st: StructV)
    ensures
        enc_record(st).len() >= 2,
{
}

/// Round trip for a whole value carried at position `i` of `b`.
#[verifier::spinoff_prover]
pub proof fn lemma_value_round_trip_at(v: ValueV, b: Seq<u8>, i: int)
    requires
        can_enc_value(v),
        0 <= i,
        i + enc_value(v).len() <= b.len(),
        b.subrange(i, i + enc_value(v).len()) == enc_value(v),
    ensures
        dec_value(b, i) == Some((v, i + enc_value(v).len())),
    decreases v, 2int,
{
    let e = enc_value(v);
    lemma_enc_value_len_pos(v);
    lemma_p256_vals();
    assert(b[i] == e[0]);
    match v {
        ValueV::Null => {
            assert(classify(b[i]) == PackType::Null);
        },
        ValueV::Boolean(x) => {
            assert(classify(b[i]) == PackType::Boolean);
        },
        ValueV::Int(n) => {
            lemma_dec_enc_int(n, b, i);
            assert(classify(b[i]) == PackType::Int) by {
                lemma_enc_int_len(n);
                if -16 <= n < 0 {
                    assert(e[0] == (n + 0x100) as u8);
                } else if 0 <= n <= 127 {
                    assert(e[0] == n as u8);
                }
            };
        },
        ValueV::Float(bits) => {
            lemma_be_bytes_len(bits as int, 8);
            assert(classify(b[i]) == PackType::Float);
            assert(b.subrange(i + 1, i + 9) =~= be_bytes(bits as int, 8)) by {
                assert(forall|k: int|
                    0 <= k < 8 ==> #[trigger] b.subrange(i + 1, i + 9)[k] == e[1 + k]);
            };
            lemma_ube_be_bytes(bits as int, 8);
        },
        ValueV::String(s) => {
            lemma_string_round_trip(s, b, i);
            assert(classify(b[i]) == PackType::String);
        },
        ValueV::List(xs) => {
            let h = enc_head4(xs.len() as int, TINY_LIST, LIST_8, LIST_16, LIST_32);
            assert(e == h + enc_values(xs));
            lemma_split(b, i, h, enc_values(xs));
            lemma_dec_list_head_of_enc(xs.len() as int, b, i);
            assert(classify(b[i]) == PackType::List);
            let j = i + h.len();
            if xs.len() == 0 {
                assert(xs =~= Seq::<ValueV>::empty());
            } else {
                lemma_values_round_trip(xs, b, j);
            }
        },
        ValueV::Dict(ps) => {
            assert(e == enc_dict(ps));
            lemma_dict_round_trip(ps, b, i);
            assert(classify(b[i]) == PackType::Dict);
        },
        ValueV::Struct(st) => {
            lemma_record_round_trip(st, b, i);
            assert(classify(b[i]) == PackType::Struct);
        },
    }
}

/// Round trip for a run of values.
pub proof fn lemma_values_round_trip(xs: Seq<ValueV>, b: Seq<u8>, i: int)
    requires
        can_enc_values(xs),
        0 <= i,
        i + enc_values(xs).len() <= b.len(),
        b.subrange(i, i + enc_values(xs).len()) == enc_values(xs),
    ensures
        dec_elems(b, i, xs.len() as int) == Some((xs, i + enc_values(xs).len())),
    decreases xs, 3int,
{
    if xs.len() == 0 {
        assert(xs =~= Seq::<ValueV>::empty());
        assert(b.subrange(i, i) =~= Seq::<u8>::empty());
    } else {
        let e0 = enc_value(xs[0]);
        let rest = xs.subrange(1, xs.len() as int);
        lemma_split(b, i, e0, enc_values(rest));
        lemma_value_round_trip_at(xs[0], b, i);
        lemma_enc_value_len_pos(xs[0]);
        let j = i + e0.len();
        lemma_values_round_trip(rest, b, j);
        assert(seq![xs[0]] + rest =~= xs);
    }
}

/// Round trip for a run of key/value pairs.
pub proof fn lemma_pairs_round_trip(ps: Seq<(Seq<u8>, ValueV)>, b: Seq<u8>, i: int)
    requires
        can_enc_pairs(ps),
        0 <= i,
        i + enc_pairs(ps).len() <= b.len(),
        b.subrange(i, i + enc_pairs(ps).len()) == enc_pairs(ps),
    ensures
        dec_pairs(b, i, ps.len() as int) == Some((ps, i + enc_pairs(ps).len())),
    decreases ps, 3int,
{
    if ps.len() == 0 {
        assert(ps =~= Seq::<(Seq<u8>, ValueV)>::empty());
    } else {
        let k0 = enc_string(ps[0].0);
        let v0 = enc_value(ps[0].1);
        let rest = ps.subrange(1, ps.len() as int);
        assert(enc_pairs(ps) =~= k0 + (v0 + enc_pairs(rest)));
        lemma_split(b, i, k0, v0 + enc_pairs(rest));
        lemma_string_round_trip(ps[0].0, b, i);
        let j = i + k0.len();
        lemma_split(b, j, v0, enc_pairs(rest));
        lemma_value_round_trip_at(ps[0].1, b, j);
        lemma_enc_value_len_pos(ps[0].1);
        let j2 = j + v0.len();
        lemma_pairs_round_trip(rest, b, j2);
        assert(seq![ps[0]] + rest =~= ps);
    }
}

/// Round trip for a map: header, then its pairs.
pub proof fn lemma_dict_round_trip(ps: Seq<(Seq<u8>, ValueV)>, b: Seq<u8>, i: int)
    requires
        can_enc_dict(ps),
        0 <= i,
        i + enc_dict(ps).len() <= b.len(),
        b.subrange(i, i + enc_dict(ps).len()) == enc_dict(ps),
    ensures
        dec_dict(b, i) == Some((ps, i + enc_dict(ps).len())),
        0xA0 <= b[i] <= 0xAF || b[i] == MAP_8 || b[i] == MAP_16 || b[i] == MAP_32,
        i < i + enc_dict(ps).len(),
    decreases ps, 4int,
{
    let h = enc_head4(ps.len() as int, TINY_MAP, MAP_8, MAP_16, MAP_32);
    lemma_split(b, i, h, enc_pairs(ps));
    lemma_dec_map_head_of_enc(ps.len() as int, b, i);
    lemma_enc_head4_len(ps.len() as int, TINY_MAP, MAP_8, MAP_16, MAP_32);
    let j = i + h.len();
    if ps.len() == 0 {
        assert(ps =~= Seq::<(Seq<u8>, ValueV)>::empty());
    } else {
        lemma_pairs_round_trip(ps, b, j);
    }
}

/// Round trip for a run of strings.
pub proof fn lemma_strs_round_trip(ls: Seq<Seq<u8>>, b: Seq<u8>, i: int)
    requires
        can_enc_strs(ls),
        0 <= i,
        i + enc_strs(ls).len() <= b.len(),
        b.subrange(i, i + enc_strs(ls).len()) == enc_strs(ls),
    ensures
        dec_strs_n(b, i, ls.len() as int) == Some((ls, i + enc_strs(ls).len())),
    decreases ls.len(),
{
    if ls.len() == 0 {
        assert(ls =~= Seq::<Seq<u8>>::empty());
    } else {
        let e0 = enc_string(ls[0]);
        let rest = ls.subrange(1, ls.len() as int);
        lemma_split(b, i, e0, enc_strs(rest));
        assert(ls[0].len() <= 0x7FFFFFFF);
        lemma_string_round_trip(ls[0], b, i);
        let j = i + e0.len();
        assert(can_enc_strs(rest)) by {
            assert(forall|k: int| 0 <= k < rest.len() ==> #[trigger] rest[k].len()
                <= 0x7FFFFFFF);
        };
        lemma_strs_round_trip(rest, b, j);
        assert(seq![ls[0]] + rest =~= ls);
    }
}

/// Round trip for a list of strings.
pub proof fn lemma_str_list_round_trip(ls: Seq<Seq<u8>>, b: Seq<u8>, i: int)
    requires
        ls.len() <= 0x7FFFFFFF,
        can_enc_strs(ls),
        0 <= i,
        i + enc_str_list(ls).len() <= b.len(),
        b.subrange(i, i + enc_str_list(ls).len()) == enc_str_list(ls),
    ensures
        dec_str_list(b, i) == Some((ls, i + enc_str_list(ls).len())),
        i < i + enc_str_list(ls).len(),
{
    let h = enc_head4(ls.len() as int, TINY_LIST, LIST_8, LIST_16, LIST_32);
    lemma_split(b, i, h, enc_strs(ls));
    lemma_dec_list_head_of_enc(ls.len() as int, b, i);
    lemma_enc_head4_len(ls.len() as int, TINY_LIST, LIST_8, LIST_16, LIST_32);
    let j = i + h.len();
    if ls.len() == 0 {
        assert(ls =~= Seq::<Seq<u8>>::empty());
    } else {
        lemma_strs_round_trip(ls, b, j);
    }
}

/// Round trip for a run of integers.
pub proof fn lemma_i64s_round_trip(s: Seq<i64>, b: Seq<u8>, i: int)
    requires
        0 <= i,
        i + enc_i64s(s).len() <= b.len(),
        b.subrange(i, i + enc_i64s(s).len()) == enc_i64s(s),
    ensures
        dec_i64s_n(b, i, s.len() as int) == Some((s, i + enc_i64s(s).len())),
    decreases s.len(),
{
    if s.len() == 0 {
        assert(s =~= Seq::<i64>::empty());
    } else {
        let e0 = enc_int(s[0] as int);
        let rest = s.subrange(1, s.len() as int);
        lemma_split(b, i, e0, enc_i64s(rest));
        lemma_dec_enc_int(s[0], b, i);
        lemma_enc_int_len(s[0]);
        let j = i + e0.len();
        lemma_i64s_round_trip(rest, b, j);
        assert(seq![s[0]] + rest =~= s);
    }
}

/// Round trip for a list of integers.
pub proof fn lemma_i64_list_round_trip(s: Seq<i64>, b: Seq<u8>, i: int)
    requires
        s.len() <= 0x7FFFFFFF,
        0 <= i,
        i + enc_i64_list(s).len() <= b.len(),
        b.subrange(i, i + enc_i64_list(s).len()) == enc_i64_list(s),
    ensures
        dec_i64_list(b, i) == Some((s, i + enc_i64_list(s).len())),
        i < i + enc_i64_list(s).len(),
{
    let h = enc_head4(s.len() as int, TINY_LIST, LIST_8, LIST_16, LIST_32);
    lemma_split(b, i, h, enc_i64s(s));
    lemma_dec_list_head_of_enc(s.len() as int, b, i);
    lemma_enc_head4_len(s.len() as int, TINY_LIST, LIST_8, LIST_16, LIST_32);
    let j = i + h.len();
    if s.len() == 0 {
        assert(s =~= Seq::<i64>::empty());
    } else {
        lemma_i64s_round_trip(s, b, j);
    }
}

/// Round trip for a node record.
#[verifier::spinoff_prover]
pub proof fn lemma_node_round_trip(n: NodeV, b: Seq<u8>, i: int)
    requires
        can_enc_node(n),
        0 <= i,
        i + enc_node(n).len() <= b.len(),
        b.subrange(i, i + enc_node(n).len()) == enc_node(n),
    ensures
        dec_node(b, i) == Some((n, i + enc_node(n).len())),
        peek_sig(b, i) == Some(crate::consts::STRUCT_NODE),
        0xB0 <= b[i] <= 0xBF,
        i < i + enc_node(n).len(),
    decreases n, 2int,
{
    let h = enc_struct_head(3, crate::consts::STRUCT_NODE);
    let e1 = enc_int(n.id as int);
    let e2 = enc_str_list(n.labels);
    let e3 = enc_dict(n.properties);
    assert(enc_node(n) =~= h + (e1 + (e2 + e3)));
    lemma_split(b, i, h, e1 + (e2 + e3));
    lemma_dec_struct_head_of_enc(3, crate::consts::STRUCT_NODE, b, i);
    let j = i + h.len();
    lemma_split(b, j, e1, e2 + e3);
    lemma_dec_enc_int(n.id, b, j);
    lemma_enc_int_len(n.id);
    let j2 = j + e1.len();
    lemma_split(b, j2, e2, e3);
    lemma_str_list_round_trip(n.labels, b, j2);
    let j3 = j2 + e2.len();
    lemma_dict_round_trip(n.properties, b, j3);
}

/// Round trip for a relationship record.
#[verifier::rlimit(100)]
#[verifier::spinoff_prover]
pub proof fn lemma_relationship_round_trip(rel: RelationshipV, b: Seq<u8>, i: int)
    requires
        can_enc_relationship(rel),
        0 <= i,
        i + enc_relationship(rel).len() <= b.len(),
        b.subrange(i, i + enc_relationship(rel).len()) == enc_relationship(rel),
    ensures
        dec_relationship(b, i) == Some((rel, i + enc_relationship(rel).len())),
        peek_sig(b, i) == Some(crate::consts::STRUCT_RELATIONSHIP),
        0xB0 <= b[i] <= 0xBF,
        i < i + enc_relationship(rel).len(),
    decreases rel, 2int,
{
    let h = enc_struct_head(5, crate::consts::STRUCT_RELATIONSHIP);
    let e1 = enc_int(rel.id as int);
    let e2 = enc_int(rel.start_node_id as int);
    let e3 = enc_int(rel.end_node_id as int);
    let e4 = enc_string(rel.rel_type);
    let e5 = enc_dict(rel.properties);
    assert(enc_relationship(rel) =~= h + (e1 + (e2 + (e3 + (e4 + e5)))));
    lemma_split(b, i, h, e1 + (e2 + (e3 + (e4 + e5))));
    lemma_dec_struct_head_of_enc(5, crate::consts::STRUCT_RELATIONSHIP, b, i);
    let j = i + h.len();
    lemma_split(b, j, e1, e2 + (e3 + (e4 + e5)));
    lemma_dec_enc_int(rel.id, b, j);
    lemma_enc_int_len(rel.id);
    let j2 = j + e1.len();
    lemma_split(b, j2, e2, e3 + (e4 + e5));
    lemma_dec_enc_int(rel.start_node_id, b, j2);
    lemma_enc_int_len(rel.start_node_id);
    let j3 = j2 + e2.len();
    lemma_split(b, j3, e3, e4 + e5);
    lemma_dec_enc_int(rel.end_node_id, b, j3);
    lemma_enc_int_len(rel.end_node_id);
    let j4 = j3 + e3.len();
    lemma_split(b, j4, e4, e5);
    lemma_string_round_trip(rel.rel_type, b, j4);
    let j5 = j4 + e4.len();
    lemma_dict_round_trip(rel.properties, b, j5);
}

/// Round trip for an unbound relationship record.
#[verifier::spinoff_prover]
pub proof fn lemma_unbound_round_trip(rel: UnboundRelationshipV, b: Seq<u8>, i: int)
    requires
        can_enc_unbound(rel),
        0 <= i,
        i + enc_unbound(rel).len() <= b.len(),
        b.subrange(i, i + enc_unbound(rel).len()) == enc_unbound(rel),
    ensures
        dec_unbound(b, i) == Some((rel, i + enc_unbound(rel).len())),
        peek_sig(b, i) == Some(crate::consts::STRUCT_UNBOUND_RELATIONSHIP),
        0xB0 <= b[i] <= 0xBF,
        i < i + enc_unbound(rel).len(),
    decreases rel, 2int,
{
    let h = enc_struct_head(3, crate::consts::STRUCT_UNBOUND_RELATIONSHIP);
    let e1 = enc_int(rel.id as int);
    let e2 = enc_string(rel.rel_type);
    let e3 = enc_dict(rel.properties);
    assert(enc_unbound(rel) =~= h + (e1 + (e2 + e3)));
    lemma_split(b, i, h, e1 + (e2 + e3));
    lemma_dec_struct_head_of_enc(3, crate::consts::STRUCT_UNBOUND_RELATIONSHIP, b, i);
    let j = i + h.len();
    lemma_split(b, j, e1, e2 + e3);
    lemma_dec_enc_int(rel.id, b, j);
    lemma_enc_int_len(rel.id);
    let j2 = j + e1.len();
    lemma_split(b, j2, e2, e3);
    lemma_string_round_trip(rel.rel_type, b, j2);
    let j3 = j2 + e2.len();
    lemma_dict_round_trip(rel.properties, b, j3);
}

/// Round trip for a run of node records.
#[verifier::rlimit(100)]
#[verifier::spinoff_prover]
pub proof fn lemma_nodes_round_trip(s: Seq<NodeV>, b: Seq<u8>, i: int)
    requires
        can_enc_nodes(s),
        0 <= i,
        i + enc_nodes(s).len() <= b.len(),
        b.subrange(i, i + enc_nodes(s).len()) == enc_nodes(s),
    ensures
        dec_nodes_n(b, i, s.len() as int) == Some((s, i + enc_nodes(s).len())),
    decreases s, 4int,
{
    if s.len() == 0 {
        assert(s =~= Seq::<NodeV>::empty());
    } else {
        let e0 = enc_node(s[0]);
        let rest = s.subrange(1, s.len() as int);
        lemma_split(b, i, e0, enc_nodes(rest));
        lemma_node_round_trip(s[0], b, i);
        let j = i + e0.len();
        lemma_nodes_round_trip(rest, b, j);
        assert(seq![s[0]] + rest =~= s);
    }
}

/// Round trip for a list of node records, whose encoding `e` is the size
/// header followed by the records.
#[verifier::spinoff_prover]
#[verifier::rlimit(100)]
pub proof fn lemma_node_list_round_trip(s: Seq<NodeV>, b: Seq<u8>, i: int, e: Seq<u8>)
    requires
        s.len() <= 0x7FFFFFFF,
        can_enc_nodes(s),
        0 <= i,
        e == enc_head4(s.len() as int, TINY_LIST, LIST_8, LIST_16, LIST_32) + enc_nodes(s),
        i + e.len() <= b.len(),
        b.subrange(i, i + e.len()) == e,
    ensures
        dec_node_list(b, i) == Some((s, i + e.len())),
    decreases s, 5int,
{
    let h = enc_head4(s.len() as int, TINY_LIST, LIST_8, LIST_16, LIST_32);
    lemma_split(b, i, h, enc_nodes(s));
    lemma_dec_list_head_of_enc(s.len() as int, b, i);
    lemma_enc_head4_len(s.len() as int, TINY_LIST, LIST_8, LIST_16, LIST_32);
    let j = i + h.len();
    if s.len() == 0 {
        assert(s =~= Seq::<NodeV>::empty());
    } else {
        lemma_nodes_round_trip(s, b, j);
    }
}

/// Round trip for a run of unbound relationship records.
#[verifier::spinoff_prover]
pub proof fn lemma_unbounds_round_trip(s: Seq<UnboundRelationshipV>, b: Seq<u8>, i: int)
    requires
        can_enc_unbounds(s),
        0 <= i,
        i + enc_unbounds(s).len() <= b.len(),
        b.subrange(i, i + enc_unbounds(s).len()) == enc_unbounds(s),
    ensures
        dec_unbounds_n(b, i, s.len() as int) == Some((s, i + enc_unbounds(s).len())),
    decreases s, 4int,
{
    if s.len() == 0 {
        assert(s =~= Seq::<UnboundRelationshipV>::empty());
    } else {
        let e0 = enc_unbound(s[0]);
        let rest = s.subrange(1, s.len() as int);
        lemma_split(b, i, e0, enc_unbounds(rest));
        lemma_unbound_round_trip(s[0], b, i);
        let j = i + e0.len();
        lemma_unbounds_round_trip(rest, b, j);
        assert(seq![s[0]] + rest =~= s);
    }
}

/// Round trip for a list of unbound relationship records, whose encoding
/// `e` is the size header followed by the records.
#[verifier::spinoff_prover]
#[verifier::rlimit(100)]
pub proof fn lemma_unbound_list_round_trip(
    s: Seq<UnboundRelationshipV>,
    b: Seq<u8>,
    i: int,
    e: Seq<u8>,
)
    requires
        s.len() <= 0x7FFFFFFF,
        can_enc_unbounds(s),
        0 <= i,
        e == enc_head4(s.len() as int, TINY_LIST, LIST_8, LIST_16, LIST_32) + enc_unbounds(s),
        i + e.len() <= b.len(),
        b.subrange(i, i + e.len()) == e,
    ensures
        dec_unbound_list(b, i) == Some((s, i + e.len())),
    decreases s, 5int,
{
    let h = enc_head4(s.len() as int, TINY_LIST, LIST_8, LIST_16, LIST_32);
    lemma_split(b, i, h, enc_unbounds(s));
    lemma_dec_list_head_of_enc(s.len() as int, b, i);
    lemma_enc_head4_len(s.len() as int, TINY_LIST, LIST_8, LIST_16, LIST_32);
    let j = i + h.len();
    if s.len() == 0 {
        assert(s =~= Seq::<UnboundRelationshipV>::empty());
    } else {
        lemma_unbounds_round_trip(s, b, j);
    }
}

/// The three list fields of a path, after its header and signature.
#[verifier::rlimit(100)]
#[verifier::spinoff_prover]
proof fn lemma_path_fields_round_trip(p: PathV, b: Seq<u8>, i: int, j: int)
    requires
        can_enc_path(p),
        0 <= i < j,
        j + (enc_path(p).len() - 2) <= b.len(),
        enc_path(p) == enc_struct_head(3, crate::consts::STRUCT_PATH) + ((enc_head4(
            p.nodes.len() as int,
            TINY_LIST,
            LIST_8,
            LIST_16,
            LIST_32,
        ) + enc_nodes(p.nodes)) + ((enc_head4(
            p.relationships.len() as int,
            TINY_LIST,
            LIST_8,
            LIST_16,
            LIST_32,
        ) + enc_unbounds(p.relationships)) + enc_i64_list(p.sequence))),
        b.subrange(j, j + (enc_path(p).len() - 2)) == (enc_head4(
            p.nodes.len() as int,
            TINY_LIST,
            LIST_8,
            LIST_16,
            LIST_32,
        ) + enc_nodes(p.nodes)) + ((enc_head4(
            p.relationships.len() as int,
            TINY_LIST,
            LIST_8,
            LIST_16,
            LIST_32,
        ) + enc_unbounds(p.relationships)) + enc_i64_list(p.sequence)),
    ensures
        dec_node_list(b, j) == Some(
            (
                p.nodes,
                j + (enc_head4(p.nodes.len() as int, TINY_LIST, LIST_8, LIST_16, LIST_32)
                    + enc_nodes(p.nodes)).len(),
            ),
        ),
        dec_unbound_list(
            b,
            j + (enc_head4(p.nodes.len() as int, TINY_LIST, LIST_8, LIST_16, LIST_32) + enc_nodes(
                p.nodes,
            )).len(),
        ) == Some(
            (
                p.relationships,
                j + (enc_path(p).len() - 2) - enc_i64_list(p.sequence).len(),
            ),
        ),
        dec_i64_list(b, j + (enc_path(p).len() - 2) - enc_i64_list(p.sequence).len()) == Some(
            (p.sequence, j + (enc_path(p).len() - 2)),
        ),
    decreases p, 1int,
{
    let e1 = enc_head4(p.nodes.len() as int, TINY_LIST, LIST_8, LIST_16, LIST_32) + enc_nodes(
        p.nodes,
    );
    let e2 = enc_head4(p.relationships.len() as int, TINY_LIST, LIST_8, LIST_16, LIST_32)
        + enc_unbounds(p.relationships);
    let e3 = enc_i64_list(p.sequence);
    let j2 = j + e1.len();
    let j3 = j2 + e2.len();
    assert(b.subrange(j, j + e1.len()) == e1 && b.subrange(j2, j2 + (e2 + e3).len()) == e2
        + e3) by {
        lemma_split(b, j, e1, e2 + e3);
    };
    assert(b.subrange(j2, j2 + e2.len()) == e2 && b.subrange(j3, j3 + e3.len()) == e3) by {
        lemma_split(b, j2, e2, e3);
    };
    assert(dec_node_list(b, j) == Some((p.nodes, j2))) by {
        lemma_node_list_round_trip(p.nodes, b, j, e1);
    };
    assert(dec_unbound_list(b, j2) == Some((p.relationships, j3))) by {
        lemma_unbound_list_round_trip(p.relationships, b, j2, e2);
    };
    assert(dec_i64_list(b, j3) == Some((p.sequence, j3 + e3.len()))) by {
        lemma_i64_list_round_trip(p.sequence, b, j3);
    };
}

/// Round trip for a path record.
#[verifier::rlimit(100)]
#[verifier::spinoff_prover]
pub proof fn lemma_path_round_trip(p: PathV, b: Seq<u8>, i: int)
    requires
        can_enc_path(p),
        0 <= i,
        i + enc_path(p).len() <= b.len(),
        b.subrange(i, i + enc_path(p).len()) == enc_path(p),
    ensures
        dec_path(b, i) == Some((p, i + enc_path(p).len())),
        peek_sig(b, i) == Some(crate::consts::STRUCT_PATH),
        0xB0 <= b[i] <= 0xBF,
        i < i + enc_path(p).len(),
    decreases p, 2int,
{
    let h = enc_struct_head(3, crate::consts::STRUCT_PATH);
    let e1 = enc_head4(p.nodes.len() as int, TINY_LIST, LIST_8, LIST_16, LIST_32) + enc_nodes(
        p.nodes,
    );
    let e2 = enc_head4(p.relationships.len() as int, TINY_LIST, LIST_8, LIST_16, LIST_32)
        + enc_unbounds(p.relationships);
    let e3 = enc_i64_list(p.sequence);
    let rest = e1 + (e2 + e3);
    assert(enc_path(p) == h + rest && h.len() == 2) by {
        assert(enc_path(p) =~= h + (e1 + (e2 + e3)));
    };
    let j = i + 2;
    assert(b.subrange(i, i + 2) == h && b.subrange(j, j + rest.len()) == rest) by {
        lemma_split(b, i, h, rest);
    };
    assert(dec_struct_head(b, i) == Some((3int, i + 1)) && b[i + 1] == crate::consts::STRUCT_PATH
        && peek_sig(b, i) == Some(crate::consts::STRUCT_PATH) && 0xB0u8 <= b[i] <= 0xBF) by {
        lemma_dec_struct_head_of_enc(3, crate::consts::STRUCT_PATH, b, i);
    };
    lemma_path_fields_round_trip(p, b, i, j);
}

/// Round trip for any record of the catalogue, with its signature visible
/// to the lookahead.
#[verifier::spinoff_prover]
pub proof fn lemma_record_round_trip(st: StructV, b: Seq<u8>, i: int)
    requires
        can_enc_record(st),
        0 <= i,
        i + enc_record(st).len() <= b.len(),
        b.subrange(i, i + enc_record(st).len()) == enc_record(st),
    ensures
        dec_record(b, i) == Some((st, i + enc_record(st).len())),
        peek_sig(b, i) == Some(sig_of(st)),
        0xB0 <= b[i] <= 0xBF,
        i < i + enc_record(st).len(),
    decreases st, 3int,
{
    match st {
        StructV::Node(n) => {
            lemma_node_round_trip(n, b, i);
        },
        StructV::Relationship(rel) => {
            lemma_relationship_round_trip(rel, b, i);
        },
        StructV::Path(p) => {
            lemma_path_round_trip(p, b, i);
        },
        StructV::UnboundRelationship(rel) => {
            lemma_unbound_round_trip(rel, b, i);
        },
    }
}

/// Round trip in the simplest setting: the buffer holds exactly the
/// encoding of one value.
pub proof fn lemma_value_round_trip(v: ValueV)
    requires
        can_enc_value(v),
    ensures
        dec_value(enc_value(v), 0) == Some((v, enc_value(v).len() as int)),
{
    let e = enc_value(v);
    assert(e.subrange(0, e.len() as int) =~= e);
    lemma_value_round_trip_at(v, e, 0);
}


// ---------------------------------------------------------------------------
// Streaming round trip
// ---------------------------------------------------------------------------

/// No value's encoding can open with the end-of-stream byte: the
/// terminator of a streamed collection is never ambiguous with an
/// element's leading marker.
pub proof fn lemma_enc_value_first_byte(v: ValueV)
    ensures
        enc_value(v).len() >= 1,
        enc_value(v)[0] != END_OF_STREAM,
{
    lemma_enc_value_len_pos(v);
    lemma_p256_vals();
    match v {
        ValueV::Null => {},
        ValueV::Boolean(_) => {},
        ValueV::Int(n) => {
            lemma_enc_int_len(n as i64);
            if -16 <= n < 0 {
                assert(enc_value(v)[0] == (n + 0x100) as u8);
            } else if 0 <= n <= 127 {
                assert(enc_value(v)[0] == n as u8);
            }
        },
        ValueV::Float(_) => {},
        ValueV::String(s) => {
            lemma_enc_head4_first(s.len() as int, TINY_STRING, STRING_8, STRING_16, STRING_32);
            assert(enc_value(v)[0] == enc_head4(
                s.len() as int,
                TINY_STRING,
                STRING_8,
                STRING_16,
                STRING_32,
            )[0]);
        },
        ValueV::List(xs) => {
            lemma_enc_head4_first(xs.len() as int, TINY_LIST, LIST_8, LIST_16, LIST_32);
            assert(enc_value(v)[0] == enc_head4(
                xs.len() as int,
                TINY_LIST,
                LIST_8,
                LIST_16,
                LIST_32,
            )[0]);
        },
        ValueV::Dict(ps) => {
            lemma_enc_head4_first(ps.len() as int, TINY_MAP, MAP_8, MAP_16, MAP_32);
            assert(enc_value(v)[0] == enc_head4(
                ps.len() as int,
                TINY_MAP,
                MAP_8,
                MAP_16,
                MAP_32,
            )[0]);
        },
        ValueV::Struct(st) => {
            match st {
                StructV::Node(n) => {
                    assert(enc_record(st) == enc_node(n));
                    assert(enc_node(n)[0] == 0xB3);
                },
                StructV::Relationship(rel) => {
                    assert(enc_record(st) == enc_relationship(rel));
                    assert(enc_relationship(rel)[0] == 0xB5);
                },
                StructV::Path(p) => {
                    assert(enc_record(st) == enc_path(p));
                    assert(enc_path(p)[0] == 0xB3);
                },
                StructV::UnboundRelationship(rel) => {
                    assert(enc_record(st) == enc_unbound(rel));
                    assert(enc_unbound(rel)[0] == 0xB3);
                },
            }
        },
    }
}

/// The first byte of a four-tier header is the tiny marker or one of the
/// three explicit-width markers.
proof fn lemma_enc_head4_first(size: int, h4: u8, h8: u8, h16: u8, h32: u8)
    requires
        0 <= size,
        h4 == TINY_STRING || h4 == TINY_LIST || h4 == TINY_MAP,
    ensures
        enc_head4(size, h4, h8, h16, h32).len() >= 1,
        size <= 15 ==> enc_head4(size, h4, h8, h16, h32)[0] == (h4 + size) as u8,
        size > 15 ==> (enc_head4(size, h4, h8, h16, h32)[0] == h8 || enc_head4(
            size,
            h4,
            h8,
            h16,
            h32,
        )[0] == h16 || enc_head4(size, h4, h8, h16, h32)[0] == h32),
{
    if size > 0x7F && size <= 0x7FFF {
        lemma_be_bytes_len(size, 2);
    }
    if size > 0x7FFF {
        lemma_be_bytes_len(size, 4);
    }
}

/// Streaming round trip: elements written back to back and closed with
/// the end-of-stream byte decode to exactly those elements, however many
/// appends delivered the bytes.
pub proof fn lemma_stream_elems_round_trip(xs: Seq<ValueV>, b: Seq<u8>, i: int)
    requires
        can_enc_values(xs),
        0 <= i,
        i + enc_values(xs).len() + 1 <= b.len(),
        b.subrange(i, i + enc_values(xs).len() + 1) == enc_values(xs) + seq![END_OF_STREAM],
    ensures
        dec_stream_elems(b, i) == Some((xs, i + enc_values(xs).len() + 1)),
    decreases xs.len(),
{
    if xs.len() == 0 {
        assert(xs =~= Seq::<ValueV>::empty());
        assert(enc_values(xs) + seq![END_OF_STREAM] =~= seq![END_OF_STREAM]);
        assert(b[i] == b.subrange(i, i + 1)[0]);
        assert(b[i] == END_OF_STREAM);
    } else {
        let e0 = enc_value(xs[0]);
        let rest = xs.subrange(1, xs.len() as int);
        assert(enc_values(xs) == e0 + enc_values(rest));
        assert(enc_values(xs) + seq![END_OF_STREAM] =~= e0 + (enc_values(rest) + seq![
            END_OF_STREAM,
        ]));
        lemma_split(b, i, e0, enc_values(rest) + seq![END_OF_STREAM]);
        lemma_value_round_trip_at(xs[0], b, i);
        lemma_enc_value_first_byte(xs[0]);
        assert(b[i] == e0[0]);
        let j = i + e0.len();
        lemma_stream_elems_round_trip(rest, b, j);
        assert(seq![xs[0]] + rest =~= xs);
    }
}

/// Streaming list round trip: the unknown-size form (stream marker,
/// elements, end-of-stream byte) decodes to the same elements as the
/// counted form would.
pub proof fn lemma_stream_list_round_trip(xs: Seq<ValueV>, b: Seq<u8>, i: int)
    requires
        can_enc_values(xs),
        0 <= i,
        i + enc_values(xs).len() + 2 <= b.len(),
        b.subrange(i, i + enc_values(xs).len() + 2) == seq![LIST_STREAM] + enc_values(xs) + seq![
            END_OF_STREAM,
        ],
    ensures
        dec_value(b, i) == Some((ValueV::List(xs), i + enc_values(xs).len() + 2)),
{
    let head: Seq<u8> = seq![LIST_STREAM];
    let tail: Seq<u8> = enc_values(xs) + seq![END_OF_STREAM];
    assert(head + enc_values(xs) + seq![END_OF_STREAM] =~= head + tail);
    assert(b.subrange(i, i + head.len() + tail.len()) == head + tail);
    lemma_split(b, i, head, tail);
    assert(b[i] == b.subrange(i, i + 1)[0]);
    assert(b[i] == LIST_STREAM);
    assert(classify(b[i]) == PackType::List);
    lemma_stream_elems_round_trip(xs, b, i + 1);
}

// ---------------------------------------------------------------------------
// Signature lookahead
// ---------------------------------------------------------------------------

/// Wherever a whole record decodes, the non-consuming signature lookahead
/// sees exactly that record's signature: peeking commits the caller to
/// the decoder that the full decode will agree with.
pub proof fn lemma_signature_lookahead(st: StructV, b: Seq<u8>, i: int, j: int)
    requires
        dec_record(b, i) == Some((st, j)),
    ensures
        peek_sig(b, i) == Some(sig_of(st)),
{
}

} // verus!
