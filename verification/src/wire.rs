//! The mathematical description of the wire format.
//!
//! Everything the encoder writes and the decoder accepts is stated here as
//! spec functions over byte sequences: big-endian byte strings, two's
//! complement representations, the canonical (narrowest-tier) integer
//! encoding, the tiered size headers, and the header decoders that accept
//! any tier.  The executable code in [`crate::packer`] and
//! [`crate::unpacker`] is verified against these functions.
use vstd::prelude::*;
use vstd::arithmetic::div_mod::lemma_fundamental_div_mod;
use vstd::arithmetic::div_mod::lemma_div_pos_is_pos;
use crate::consts::BYTES_16;
use crate::consts::BYTES_32;
use crate::consts::BYTES_8;
use crate::consts::INT_16;
use crate::consts::INT_32;
use crate::consts::INT_64;
use crate::consts::INT_8;
use crate::consts::LIST_STREAM;
use crate::consts::MAP_STREAM;
use crate::consts::STRING_16;
use crate::consts::STRING_32;
use crate::consts::STRING_8;
use crate::consts::LIST_16;
use crate::consts::LIST_32;
use crate::consts::LIST_8;
use crate::consts::MAP_16;
use crate::consts::MAP_32;
use crate::consts::MAP_8;
use crate::consts::STRUCT_16;
use crate::consts::STRUCT_8;
use crate::consts::TINY_STRUCT;
use crate::consts::TRUE;
use crate::consts::FALSE;

verus! {

// ---------------------------------------------------------------------------
// Byte-string arithmetic
// ---------------------------------------------------------------------------

/// `256^w`: the number of values a `w`-byte string can carry.
pub open spec fn p256(w: nat) -> int
    decreases w,
{
    if w == 0 {
        1
    } else {
        256 * p256((w - 1) as nat)
    }
}

/// The big-endian `w`-byte string of `u`, for `0 <= u < p256(w)`.
pub open spec fn be_bytes(u: int, w: nat) -> Seq<u8>
    decreases w,
{
    if w == 0 {
        seq![]
    } else {
        be_bytes(u / 256, (w - 1) as nat) + seq![(u % 256) as u8]
    }
}

/// The unsigned value of a big-endian byte string, most significant first.
pub open spec fn ube(s: Seq<u8>) -> int
    decreases s.len(),
{
    if s.len() == 0 {
        0
    } else {
        256 * ube(s.drop_last()) + s.last()
    }
}

/// Reads `u` (an unsigned `w`-byte value) as a two's complement signed value.
pub open spec fn sext(u: int, w: nat) -> int {
    if u >= p256(w) / 2 {
        u - p256(w)
    } else {
        u
    }
}

/// The two's complement `w`-byte representation of a signed value `n`.
pub open spec fn srep(n: int, w: nat) -> int {
    if n < 0 {
        n + p256(w)
    } else {
        n
    }
}

pub proof fn lemma_p256_pos(w: nat)
    ensures
        p256(w) >= 1,
    decreases w,
{
    if w > 0 {
        lemma_p256_pos((w - 1) as nat);
    }
}

pub proof fn lemma_p256_vals()
    ensures
        p256(1) == 0x100,
        p256(2) == 0x10000,
        p256(4) == 0x100000000,
        p256(8) == 0x10000000000000000,
{
    reveal_with_fuel(p256, 9);
}

pub proof fn lemma_be_bytes_len(u: int, w: nat)
    ensures
        be_bytes(u, w).len() == w,
    decreases w,
{
    if w > 0 {
        lemma_be_bytes_len(u / 256, (w - 1) as nat);
    }
}

/// Reading back the big-endian bytes of `u` yields `u`.
pub proof fn lemma_ube_be_bytes(u: int, w: nat)
    requires
        0 <= u < p256(w),
    ensures
        ube(be_bytes(u, w)) == u,
    decreases w,
{
    if w > 0 {
        let q = u / 256;
        let r = u % 256;
        lemma_fundamental_div_mod(u, 256);
        lemma_p256_pos((w - 1) as nat);
        assert(q < p256((w - 1) as nat)) by {
            if q >= p256((w - 1) as nat) {
                assert(u >= 256 * q) by {
                    lemma_fundamental_div_mod(u, 256);
                };
                assert(256 * q >= 256 * p256((w - 1) as nat)) by (nonlinear_arith)
                    requires
                        q >= p256((w - 1) as nat),
                ;
            }
        };
        lemma_div_pos_is_pos(u, 256);
        lemma_ube_be_bytes(q, (w - 1) as nat);
        let s = be_bytes(u, w);
        lemma_be_bytes_len(u / 256, (w - 1) as nat);
        assert(s.drop_last() =~= be_bytes(q, (w - 1) as nat));
        assert(s.last() == (r as u8));
    }
}

/// A signed value within the `w`-byte two's complement domain survives the
/// representation/extension round trip.
pub proof fn lemma_sext_srep(n: int, w: nat)
    requires
        -(p256(w) / 2) <= n < p256(w) / 2,
    ensures
        0 <= srep(n, w) < p256(w),
        sext(srep(n, w), w) == n,
{
    lemma_p256_pos(w);
    assert(p256(w) / 2 + p256(w) / 2 == p256(w)) by {
        if w > 0 {
            reveal_with_fuel(p256, 1);
            assert(p256(w) == 256 * p256((w - 1) as nat));
            assert(p256(w) % 2 == 0) by (nonlinear_arith)
                requires
                    p256(w) == 256 * p256((w - 1) as nat),
            ;
            lemma_fundamental_div_mod(p256(w), 2);
        }
    };
}

// ---------------------------------------------------------------------------
// Canonical encodings
// ---------------------------------------------------------------------------

/// The canonical (narrowest sufficient tier) encoding of a signed integer.
/// A value in `-16..=127` is folded whole into the marker byte; wider values
/// escalate through the 8-, 16-, 32- and 64-bit tiers.
pub open spec fn enc_int(n: int) -> Seq<u8> {
    if -16 <= n <= 127 {
        seq![srep(n, 1) as u8]
    } else if -128 <= n <= 127 {
        seq![INT_8, srep(n, 1) as u8]
    } else if -0x8000 <= n <= 0x7FFF {
        seq![INT_16] + be_bytes(srep(n, 2), 2)
    } else if -0x80000000 <= n <= 0x7FFFFFFF {
        seq![INT_32] + be_bytes(srep(n, 4), 4)
    } else {
        seq![INT_64] + be_bytes(srep(n, 8), 8)
    }
}

/// The three-tier size header (8-, 16- or 32-bit) used when a size does not
/// fit a tiny marker.  Each tier caps at the signed-positive maximum of its
/// payload width; this signed-range boundary is part of the wire format.
/// Defined for `0 <= size <= 0x7FFFFFFF`.
pub open spec fn enc_head3(size: int, h8: u8, h16: u8, h32: u8) -> Seq<u8> {
    if size <= 0x7F {
        seq![h8, size as u8]
    } else if size <= 0x7FFF {
        seq![h16] + be_bytes(size, 2)
    } else {
        seq![h32] + be_bytes(size, 4)
    }
}

/// The four-tier size header: sizes `0..=15` fold into the tiny marker's low
/// nibble, larger sizes escalate through [`enc_head3`].
pub open spec fn enc_head4(size: int, h4: u8, h8: u8, h16: u8, h32: u8) -> Seq<u8> {
    if size <= 15 {
        seq![(h4 + size) as u8]
    } else {
        enc_head3(size, h8, h16, h32)
    }
}

/// The struct header: marker carrying the field count (tiny, or through the
/// generic integer encoder for the 8- and 16-bit tiers), then the signature
/// byte.  Defined for `0 <= size <= 0x7FFF`; there is no 32-bit struct tier.
pub open spec fn enc_struct_head(size: int, sign: u8) -> Seq<u8> {
    if size <= 15 {
        seq![(TINY_STRUCT + size) as u8, sign]
    } else if size <= 0x7F {
        seq![STRUCT_8] + enc_int(size) + seq![sign]
    } else {
        seq![STRUCT_16] + enc_int(size) + seq![sign]
    }
}

// ---------------------------------------------------------------------------
// Decoding: primitives and headers
// ---------------------------------------------------------------------------

/// `w` bytes are available at position `i`.
pub open spec fn fits(b: Seq<u8>, i: int, w: int) -> bool {
    0 <= i && i + w <= b.len()
}

/// Decodes the signed `w`-byte big-endian payload at `i`.
pub open spec fn dec_signed(b: Seq<u8>, i: int, w: nat) -> Option<(int, int)> {
    if fits(b, i, w as int) {
        Some((sext(ube(b.subrange(i, i + w)), w), i + w))
    } else {
        None
    }
}

/// Decodes an integer of any tier at `i`: the marker byte either carries the
/// value itself (tiny form) or selects a payload width.
pub open spec fn dec_int(b: Seq<u8>, i: int) -> Option<(i64, int)> {
    if !fits(b, i, 1) {
        None
    } else {
        let m = b[i];
        if m <= 0x7F {
            Some((m as i64, i + 1))
        } else if m >= 0xF0 {
            Some(((m - 0x100) as i64, i + 1))
        } else if m == INT_8 {
            match dec_signed(b, i + 1, 1) {
                Some((n, j)) => Some((n as i64, j)),
                None => None,
            }
        } else if m == INT_16 {
            match dec_signed(b, i + 1, 2) {
                Some((n, j)) => Some((n as i64, j)),
                None => None,
            }
        } else if m == INT_32 {
            match dec_signed(b, i + 1, 4) {
                Some((n, j)) => Some((n as i64, j)),
                None => None,
            }
        } else if m == INT_64 {
            match dec_signed(b, i + 1, 8) {
                Some((n, j)) => Some((n as i64, j)),
                None => None,
            }
        } else {
            None
        }
    }
}

/// Decodes a boolean at `i`: exactly the two fixed markers are accepted.
pub open spec fn dec_bool(b: Seq<u8>, i: int) -> Option<(bool, int)> {
    if !fits(b, i, 1) {
        None
    } else if b[i] == TRUE {
        Some((true, i + 1))
    } else if b[i] == FALSE {
        Some((false, i + 1))
    } else {
        None
    }
}

/// Decodes a float's bit pattern at `i`.  The leading marker byte is
/// consumed without being checked: the decoder is deliberately lenient
/// here, trusting the caller's dispatch.
pub open spec fn dec_float_bits(b: Seq<u8>, i: int) -> Option<(u64, int)> {
    if fits(b, i, 9) {
        Some((ube(b.subrange(i + 1, i + 9)) as u64, i + 9))
    } else {
        None
    }
}

/// Decodes a string size header at `i`: tiny nibble, or an 8-, 16- or
/// 32-bit signed size.
pub open spec fn dec_string_head(b: Seq<u8>, i: int) -> Option<(int, int)> {
    if !fits(b, i, 1) {
        None
    } else {
        let m = b[i];
        if 0x80 <= m <= 0x8F {
            Some(((m - 0x80) as int, i + 1))
        } else if m == STRING_8 {
            dec_signed(b, i + 1, 1)
        } else if m == STRING_16 {
            dec_signed(b, i + 1, 2)
        } else if m == STRING_32 {
            dec_signed(b, i + 1, 4)
        } else {
            None
        }
    }
}

/// Decodes a list size header at `i`; the stream marker yields the
/// unknown-size sentinel `-1`.
pub open spec fn dec_list_head(b: Seq<u8>, i: int) -> Option<(int, int)> {
    if !fits(b, i, 1) {
        None
    } else {
        let m = b[i];
        if 0x90 <= m <= 0x9F {
            Some(((m - 0x90) as int, i + 1))
        } else if m == LIST_8 {
            dec_signed(b, i + 1, 1)
        } else if m == LIST_16 {
            dec_signed(b, i + 1, 2)
        } else if m == LIST_32 {
            dec_signed(b, i + 1, 4)
        } else if m == LIST_STREAM {
            Some((-1, i + 1))
        } else {
            None
        }
    }
}

/// Decodes a map size header at `i`; the stream marker yields the
/// unknown-size sentinel `-1`.
pub open spec fn dec_map_head(b: Seq<u8>, i: int) -> Option<(int, int)> {
    if !fits(b, i, 1) {
        None
    } else {
        let m = b[i];
        if 0xA0 <= m <= 0xAF {
            Some(((m - 0xA0) as int, i + 1))
        } else if m == MAP_8 {
            dec_signed(b, i + 1, 1)
        } else if m == MAP_16 {
            dec_signed(b, i + 1, 2)
        } else if m == MAP_32 {
            dec_signed(b, i + 1, 4)
        } else if m == MAP_STREAM {
            Some((-1, i + 1))
        } else {
            None
        }
    }
}

/// Decodes a struct header (field count) at `i`: tiny, 8- or 16-bit only.
pub open spec fn dec_struct_head(b: Seq<u8>, i: int) -> Option<(int, int)> {
    if !fits(b, i, 1) {
        None
    } else {
        let m = b[i];
        if 0xB0 <= m <= 0xBF {
            Some(((m - 0xB0) as int, i + 1))
        } else if m == STRUCT_8 {
            dec_signed(b, i + 1, 1)
        } else if m == STRUCT_16 {
            dec_signed(b, i + 1, 2)
        } else {
            None
        }
    }
}

/// The signature byte of the struct whose header starts at `i`, located
/// without consuming anything: offset 1 past a tiny marker, 2 past the
/// 8-bit tier, 3 past the 16-bit tier.
pub open spec fn peek_sig(b: Seq<u8>, i: int) -> Option<u8> {
    if !fits(b, i, 1) {
        None
    } else {
        let m = b[i];
        let off: int = if 0xB0 <= m <= 0xBF {
            1
        } else if m == STRUCT_8 {
            2
        } else if m == STRUCT_16 {
            3
        } else {
            0
        };
        if off == 0 {
            None
        } else if fits(b, i + off, 1) {
            Some(b[i + off])
        } else {
            None
        }
    }
}

/// The encoding of a byte array: three-tier size header (byte arrays have
/// no tiny form), then the raw bytes.
pub open spec fn enc_bytes(s: Seq<u8>) -> Seq<u8> {
    enc_head3(s.len() as int, BYTES_8, BYTES_16, BYTES_32) + s
}

/// Decodes a byte-array size header at `i`: an 8-, 16- or 32-bit signed
/// size after its marker.
pub open spec fn dec_bytes_head(b: Seq<u8>, i: int) -> Option<(int, int)> {
    if !fits(b, i, 1) {
        None
    } else {
        let m = b[i];
        if m == BYTES_8 {
            dec_signed(b, i + 1, 1)
        } else if m == BYTES_16 {
            dec_signed(b, i + 1, 2)
        } else if m == BYTES_32 {
            dec_signed(b, i + 1, 4)
        } else {
            None
        }
    }
}

/// Decodes a byte array at `i`: size header, then the raw payload.
pub open spec fn dec_bytes(b: Seq<u8>, i: int) -> Option<(Seq<u8>, int)> {
    match dec_bytes_head(b, i) {
        Some((s, j)) => {
            if s == 0 {
                Some((seq![], j))
            } else if 0 < s && j + s <= b.len() {
                Some((b.subrange(j, j + s), j + s))
            } else {
                None
            }
        },
        None => None,
    }
}

/// The markers that can open a byte array.
pub open spec fn is_bytes_head_marker(m: u8) -> bool {
    m == BYTES_8 || m == BYTES_16 || m == BYTES_32
}

/// The markers that can open a string.
pub open spec fn is_string_head_marker(m: u8) -> bool {
    0x80 <= m <= 0x8F || m == STRING_8 || m == STRING_16 || m == STRING_32
}

/// The markers that can open a list, the stream form included.
pub open spec fn is_list_head_marker(m: u8) -> bool {
    0x90 <= m <= 0x9F || m == LIST_8 || m == LIST_16 || m == LIST_32 || m == LIST_STREAM
}

/// The markers that can open a map, the stream form included.
pub open spec fn is_map_head_marker(m: u8) -> bool {
    0xA0 <= m <= 0xAF || m == MAP_8 || m == MAP_16 || m == MAP_32 || m == MAP_STREAM
}

/// The markers that can open a struct.
pub open spec fn is_struct_head_marker(m: u8) -> bool {
    0xB0 <= m <= 0xBF || m == STRUCT_8 || m == STRUCT_16
}

/// The markers that can open an integer.
pub open spec fn is_int_marker(m: u8) -> bool {
    m <= 0x7F || m >= 0xF0 || m == INT_8 || m == INT_16 || m == INT_32 || m == INT_64
}

/// Decodes a string's bytes at `i`: size header, then the raw payload.
/// A size of zero yields the empty string without touching the cursor
/// again; a negative size never matches the available bytes.
pub open spec fn dec_string(b: Seq<u8>, i: int) -> Option<(Seq<u8>, int)> {
    match dec_string_head(b, i) {
        Some((s, j)) => {
            if s == 0 {
                Some((seq![], j))
            } else if 0 < s && j + s <= b.len() {
                Some((b.subrange(j, j + s), j + s))
            } else {
                None
            }
        },
        None => None,
    }
}

// ---------------------------------------------------------------------------
// Round-trip facts about the canonical encodings
// ---------------------------------------------------------------------------

/// Decoding a canonically encoded integer yields the integer back, from any
/// position of a larger buffer that carries the encoding.
pub proof fn lemma_dec_enc_int(n: i64, b: Seq<u8>, i: int)
    requires
        0 <= i,
        i + enc_int(n as int).len() <= b.len(),
        b.subrange(i, i + enc_int(n as int).len()) == enc_int(n as int),
    ensures
        dec_int(b, i) == Some((n, i + enc_int(n as int).len())),
{
    let e = enc_int(n as int);
    lemma_p256_vals();
    if -16 <= n <= 127 {
        assert(b[i] == e[0]);
    } else if -128 <= n <= 127 {
        assert(b[i] == e[0] && b[i + 1] == e[1]);
        lemma_sext_srep(n as int, 1);
        assert(b.subrange(i + 1, i + 2) =~= seq![(srep(n as int, 1)) as u8]);
        assert(ube(seq![(srep(n as int, 1)) as u8]) == srep(n as int, 1)) by {
            reveal_with_fuel(ube, 2);
            let s = seq![(srep(n as int, 1)) as u8];
            assert(s.drop_last() =~= Seq::<u8>::empty());
        };
    } else if -0x8000 <= n <= 0x7FFF {
        lemma_enc_int_payload(n as int, b, i, 2, INT_16);
    } else if -0x80000000 <= n <= 0x7FFFFFFF {
        lemma_enc_int_payload(n as int, b, i, 4, INT_32);
    } else {
        lemma_enc_int_payload(n as int, b, i, 8, INT_64);
    }
}

proof fn lemma_enc_int_payload(n: int, b: Seq<u8>, i: int, w: nat, marker: u8)
    requires
        0 <= i,
        enc_int(n) == seq![marker] + be_bytes(srep(n, w), w),
        -(p256(w) / 2) <= n < p256(w) / 2,
        i + enc_int(n).len() <= b.len(),
        b.subrange(i, i + enc_int(n).len()) == enc_int(n),
    ensures
        b[i] == marker,
        enc_int(n).len() == 1 + w,
        dec_signed(b, i + 1, w) == Some((n, i + 1 + w)),
{
    let e = enc_int(n);
    lemma_sext_srep(n, w);
    lemma_be_bytes_len(srep(n, w), w);
    assert(e.len() == 1 + w);
    assert(b[i] == e[0]);
    assert(b.subrange(i + 1, i + 1 + w) =~= be_bytes(srep(n, w), w)) by {
        assert(forall|k: int|
            0 <= k < w ==> #[trigger] b.subrange(i + 1, i + 1 + w)[k] == e[1 + k]);
    };
    lemma_ube_be_bytes(srep(n, w), w);
}

} // verus!
