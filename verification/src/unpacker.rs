//! The decoder: a byte cursor with non-destructive lookahead and the
//! structural inverse of the encoder.
//!
//! Every operation's contract is stated against the spec decoders of
//! [`crate::wire`], [`crate::value`] and [`crate::structs`]: on success the
//! result and the new cursor position are exactly what the spec decoder
//! yields, and the operation fails exactly when the spec decoder yields
//! nothing.  Cursor bounds failures signal "need more bytes" during
//! streaming; marker mismatches are malformed input.
use vstd::prelude::*;
use crate::consts::END_OF_STREAM;
use crate::consts::INT_16;
use crate::consts::INT_32;
use crate::consts::INT_64;
use crate::consts::INT_8;
use crate::consts::FALSE;
use crate::consts::LIST_16;
use crate::consts::LIST_32;
use crate::consts::LIST_8;
use crate::consts::LIST_STREAM;
use crate::consts::MAP_16;
use crate::consts::MAP_32;
use crate::consts::MAP_8;
use crate::consts::MAP_STREAM;
use crate::consts::STRING_16;
use crate::consts::STRING_32;
use crate::consts::STRING_8;
use crate::consts::STRUCT_16;
use crate::consts::STRUCT_8;
use crate::consts::TRUE;
use crate::consts::UNKNOWN_SIZE;
use crate::error::BoltError;
use crate::structs::Node;
use crate::structs::Path;
use crate::structs::Relationship;
use crate::structs::Struct;
use crate::structs::UnboundRelationship;
use crate::structs::NodeV;
use crate::structs::UnboundRelationshipV;
use crate::structs::dec_dict;
use crate::structs::dec_i64_list;
use crate::structs::dec_i64s_n;
use crate::structs::dec_node;
use crate::structs::dec_node_list;
use crate::structs::dec_nodes_n;
use crate::structs::dec_path;
use crate::structs::dec_record;
use crate::structs::dec_relationship;
use crate::structs::dec_str_list;
use crate::structs::dec_stream_i64s;
use crate::structs::dec_stream_nodes;
use crate::structs::dec_stream_strs;
use crate::structs::dec_stream_unbounds;
use crate::structs::dec_strs_n;
use crate::structs::dec_unbound;
use crate::structs::dec_unbound_list;
use crate::structs::dec_unbounds_n;
use crate::structs::view_node;
use crate::structs::view_nodes;
use crate::structs::view_path;
use crate::structs::view_relationship;
use crate::structs::view_strs;
use crate::structs::view_struct;
use crate::structs::view_unbound;
use crate::structs::view_unbounds;
use crate::types::PackType;
use crate::types::classify;
use crate::value::Value;
use crate::value::ValueV;
use crate::value::dec_elems;
use crate::value::dec_pairs;
use crate::value::dec_stream_elems;
use crate::value::dec_stream_pairs;
use crate::value::dec_value;
use crate::value::view_pairs;
use crate::value::view_value;
use crate::value::view_values;
use crate::consts::STRUCT_NODE;
use crate::consts::STRUCT_PATH;
use crate::consts::STRUCT_RELATIONSHIP;
use crate::consts::STRUCT_UNBOUND_RELATIONSHIP;
use crate::consts::BYTES_16;
use crate::consts::BYTES_32;
use crate::consts::BYTES_8;
use crate::wire::dec_bool;
use crate::wire::dec_bytes;
use crate::wire::dec_bytes_head;
use crate::wire::is_bytes_head_marker;
use crate::wire::dec_float_bits;
use crate::wire::dec_int;
use crate::wire::dec_list_head;
use crate::wire::dec_map_head;
use crate::wire::dec_signed;
use crate::wire::dec_string;
use crate::wire::dec_string_head;
use crate::wire::dec_struct_head;
use crate::wire::fits;
use crate::wire::is_int_marker;
use crate::wire::is_list_head_marker;
use crate::wire::is_map_head_marker;
use crate::wire::is_string_head_marker;
use crate::wire::is_struct_head_marker;
use crate::wire::lemma_p256_pos;
use crate::wire::lemma_p256_vals;
use crate::wire::p256;
use crate::wire::peek_sig;
use crate::wire::sext;
use crate::wire::ube;

verus! {

/// The byte source of the decoder: a growable buffer plus a read position.
/// Bytes may be appended mid-decode (streaming ingestion); the position
/// never exceeds the buffer's length.
pub struct PackInput {
    pub buf: Vec<u8>,
    pub index: usize,
}

impl PackInput {
    /// The read position, for contracts.
    pub open spec fn pos(&self) -> int {
        self.index as int
    }

    /// The position never runs past the available bytes.
    pub open spec fn wf(&self) -> bool {
        self.index <= self.buf@.len()
    }

    pub fn new(buf: Vec<u8>) -> (r: Self)
        ensures
            r.buf@ == buf@,
            r.pos() == 0,
            r.wf(),
    {
        PackInput { buf, index: 0 }
    }

    /// The number of bytes held, read and unread.
    pub fn len(self) -> (r: usize)
        ensures
            r == self.buf@.len(),
    {
        self.buf.len()
    }

    /// Discards all buffered bytes and rewinds the position.
    pub fn clear(&mut self)
        ensures
            final(self).buf@ == Seq::<u8>::empty(),
            final(self).pos() == 0,
            final(self).wf(),
    {
        self.buf.clear();
        self.index = 0;
    }

    /// Appends more bytes for decoding; the read position stays put.
    pub fn extend(&mut self, bytes: &[u8])
        ensures
            final(self).buf@ == old(self).buf@ + bytes@,
            final(self).pos() == old(self).pos(),
            old(self).wf() ==> final(self).wf(),
    {
        let mut k: usize = 0;
        #[verifier::loop_isolation(false)]
        while k < bytes.len()
            invariant
                k <= bytes@.len(),
                self.buf@ == old(self).buf@ + bytes@.subrange(0, k as int),
                self.index == old(self).index,
            decreases bytes@.len() - k,
        {
            let b = bytes[k];
            self.buf.push(b);
            proof {
                assert(old(self).buf@ + bytes@.subrange(0, (k + 1) as int) =~= (old(self).buf@
                    + bytes@.subrange(0, k as int)).push(b));
            }
            k = k + 1;
        }
        proof {
            assert(bytes@.subrange(0, bytes@.len() as int) =~= bytes@);
        }
    }

    /// Non-destructive lookahead at the current position.
    pub fn peek(&mut self) -> (r: Result<u8, BoltError>)
        ensures
            *final(self) == *old(self),
            r is Ok <==> old(self).pos() < old(self).buf@.len(),
            r is Ok ==> r.unwrap() == old(self).buf@[old(self).pos()],
            r is Err ==> r == Err::<u8, BoltError>(BoltError::PackInputPeekInvalidRange),
    {
        if self.index < self.buf.len() {
            Ok(self.buf[self.index])
        } else {
            Err(BoltError::PackInputPeekInvalidRange)
        }
    }

    /// Non-destructive lookahead `i` bytes past the current position.
    pub fn peek_at(&mut self, i: usize) -> (r: Result<u8, BoltError>)
        ensures
            *final(self) == *old(self),
            r is Ok <==> old(self).pos() + i < old(self).buf@.len(),
            r is Ok ==> r.unwrap() == old(self).buf@[old(self).pos() + i],
            r is Err ==> r == Err::<u8, BoltError>(BoltError::PackInputPeekAtInvalidRange),
    {
        let l = self.buf.len();
        if i < l && self.index < l - i {
            Ok(self.buf[self.index + i])
        } else {
            Err(BoltError::PackInputPeekAtInvalidRange)
        }
    }

    /// Consumes `size` bytes and hands them out.  Fails, moving nothing,
    /// when fewer than `size` bytes remain (or none at all).
    pub fn read_slice(&mut self, size: usize) -> (r: Result<Vec<u8>, BoltError>)
        ensures
            final(self).buf@ == old(self).buf@,
            r is Ok <==> old(self).pos() < old(self).buf@.len() && old(self).pos() + size <= old(
                self,
            ).buf@.len(),
            r is Ok ==> final(self).pos() == old(self).pos() + size && r.unwrap()@ == old(
                self,
            ).buf@.subrange(old(self).pos(), old(self).pos() + size),
            r is Err ==> *final(self) == *old(self) && r == Err::<Vec<u8>, BoltError>(
                BoltError::PackInputReadInvalidSliceRange,
            ),
            old(self).wf() ==> final(self).wf(),
    {
        let l = self.buf.len();
        if self.index < l && size <= l - self.index {
            let mut out: Vec<u8> = Vec::new();
            let mut k: usize = 0;
            #[verifier::loop_isolation(false)]
            while k < size
                invariant
                    k <= size,
                    out@ == self.buf@.subrange(self.index as int, self.index + k),
                    *self == *old(self),
                decreases size - k,
            {
                let b = self.buf[self.index + k];
                out.push(b);
                proof {
                    assert(self.buf@.subrange(self.index as int, self.index + k + 1)
                        =~= self.buf@.subrange(self.index as int, self.index + k).push(b));
                }
                k = k + 1;
            }
            self.index = self.index + size;
            Ok(out)
        } else {
            Err(BoltError::PackInputReadInvalidSliceRange)
        }
    }

    /// Consumes one byte.  Fails, moving nothing, at the end of the bytes.
    pub fn read_u8(&mut self) -> (r: Result<u8, BoltError>)
        ensures
            final(self).buf@ == old(self).buf@,
            r is Ok <==> old(self).pos() < old(self).buf@.len(),
            r is Ok ==> final(self).pos() == old(self).pos() + 1 && r.unwrap() == old(
                self,
            ).buf@[old(self).pos()],
            r is Err ==> *final(self) == *old(self) && r == Err::<u8, BoltError>(
                BoltError::PackInputReadInvalidIndex,
            ),
            old(self).wf() ==> final(self).wf(),
    {
        if self.index < self.buf.len() {
            let b = self.buf[self.index];
            self.index = self.index + 1;
            Ok(b)
        } else {
            Err(BoltError::PackInputReadInvalidIndex)
        }
    }

    /// Consumes `w` bytes and assembles them big-endian, most significant
    /// byte first.
    fn read_be(&mut self, w: u8) -> (r: Result<u64, BoltError>)
        requires
            w <= 8,
        ensures
            final(self).buf@ == old(self).buf@,
            r is Ok <==> old(self).pos() + w <= old(self).buf@.len() && old(self).pos() <= old(
                self,
            ).buf@.len(),
            r is Ok ==> final(self).pos() == old(self).pos() + w && r.unwrap() as int == ube(
                old(self).buf@.subrange(old(self).pos(), old(self).pos() + w),
            ) && r.unwrap() < p256(w as nat),
            r is Err ==> r == Err::<u64, BoltError>(BoltError::PackInputReadInvalidIndex),
            r is Err && old(self).wf() ==> *final(self) == *old(self),
            old(self).wf() ==> final(self).wf(),
    {
        proof {
            lemma_p256_vals();
            lemma_p256_pos(w as nat);
        }
        let l = self.buf.len();
        if self.index <= l && (w as usize) <= l - self.index {
            let mut u: u64 = 0;
            let mut k: usize = 0;
            #[verifier::loop_isolation(false)]
            while k < w as usize
                invariant
                    k <= w,
                    self.buf@ == old(self).buf@,
                    self.index == old(self).index + k,
                    u as int == ube(old(self).buf@.subrange(old(self).pos(), old(self).pos() + k)),
                    u < p256(k as nat),
                decreases w - k,
            {
                proof {
                    lemma_p256_mono(k as nat, 7);
                }
                let b = match self.read_u8() {
                    Ok(b) => b,
                    Err(e) => {
                        proof {
                            assert(false);
                        }
                        return Err(e);
                    },
                };
                proof {
                    let s1 = old(self).buf@.subrange(old(self).pos(), old(self).pos() + k + 1);
                    assert(s1.drop_last() =~= old(self).buf@.subrange(
                        old(self).pos(),
                        old(self).pos() + k,
                    ));
                    assert(s1.last() == b);
                    assert(p256((k + 1) as nat) == 256 * p256(k as nat));
                }
                u = u * 256 + (b as u64);
                k = k + 1;
            }
            Ok(u)
        } else {
            Err(BoltError::PackInputReadInvalidIndex)
        }
    }
}

impl PackInput {
    /// Consumes one byte read as a signed 8-bit value.
    fn read_i8(&mut self) -> (r: Result<i8, BoltError>)
        ensures
            final(self).buf@ == old(self).buf@,
            old(self).wf() ==> final(self).wf(),
            match dec_signed(old(self).buf@, old(self).pos(), 1) {
                Some((n, j)) => r is Ok && r.unwrap() as int == n && final(self).pos() == j,
                None => r is Err && r == Err::<i8, BoltError>(BoltError::PackInputReadInvalidIndex),
            },
    {
        proof {
            lemma_p256_vals();
        }
        let b = match self.read_u8() {
            Ok(b) => b,
            Err(e) => {
                return Err(e);
            },
        };
        let n: i8 = if b < 0x80 {
            b as i8
        } else {
            ((b as i16) - 0x100) as i8
        };
        proof {
            let s = old(self).buf@.subrange(old(self).pos(), old(self).pos() + 1);
            assert(s.drop_last() =~= Seq::<u8>::empty());
            assert(s.last() == b);
            reveal_with_fuel(ube, 2);
        }
        Ok(n)
    }

    /// Consumes two bytes read as a signed big-endian 16-bit value.
    fn read_i16(&mut self) -> (r: Result<i16, BoltError>)
        ensures
            final(self).buf@ == old(self).buf@,
            old(self).wf() ==> final(self).wf(),
            match dec_signed(old(self).buf@, old(self).pos(), 2) {
                Some((n, j)) => r is Ok && r.unwrap() as int == n && final(self).pos() == j,
                None => r is Err && r == Err::<i16, BoltError>(
                    BoltError::PackInputReadInvalidIndex,
                ),
            },
    {
        proof {
            lemma_p256_vals();
        }
        let u = match self.read_be(2) {
            Ok(u) => u,
            Err(e) => {
                return Err(e);
            },
        };
        let n: i16 = if u < 0x8000 {
            u as i16
        } else {
            ((u as i64) - 0x10000) as i16
        };
        Ok(n)
    }

    /// Consumes four bytes read as a signed big-endian 32-bit value.
    fn read_i32(&mut self) -> (r: Result<i32, BoltError>)
        ensures
            final(self).buf@ == old(self).buf@,
            old(self).wf() ==> final(self).wf(),
            match dec_signed(old(self).buf@, old(self).pos(), 4) {
                Some((n, j)) => r is Ok && r.unwrap() as int == n && final(self).pos() == j,
                None => r is Err && r == Err::<i32, BoltError>(
                    BoltError::PackInputReadInvalidIndex,
                ),
            },
    {
        proof {
            lemma_p256_vals();
        }
        let u = match self.read_be(4) {
            Ok(u) => u,
            Err(e) => {
                return Err(e);
            },
        };
        let n: i32 = if u < 0x80000000 {
            u as i32
        } else {
            ((u as i64) - 0x100000000) as i32
        };
        Ok(n)
    }

    /// Consumes eight bytes read as a signed big-endian 64-bit value.
    fn read_i64(&mut self) -> (r: Result<i64, BoltError>)
        ensures
            final(self).buf@ == old(self).buf@,
            old(self).wf() ==> final(self).wf(),
            match dec_signed(old(self).buf@, old(self).pos(), 8) {
                Some((n, j)) => r is Ok && r.unwrap() as int == n && final(self).pos() == j,
                None => r is Err && r == Err::<i64, BoltError>(
                    BoltError::PackInputReadInvalidIndex,
                ),
            },
    {
        proof {
            lemma_p256_vals();
        }
        let u = match self.read_be(8) {
            Ok(u) => u,
            Err(e) => {
                return Err(e);
            },
        };
        let n: i64 = if u < 0x8000000000000000 {
            u as i64
        } else {
            -((u64::MAX - u) as i64) - 1
        };
        Ok(n)
    }
}

/// The decoder: stateless algorithms consuming from a [`PackInput`].
pub struct Unpacker {
    pub input: PackInput,
}

impl Unpacker {
    pub fn new(buf: Vec<u8>) -> (r: Self)
        ensures
            r.input.buf@ == buf@,
            r.input.pos() == 0,
            r.input.wf(),
    {
        Unpacker { input: PackInput::new(buf) }
    }

    /// The number of bytes held, read and unread.
    pub fn len(self) -> (r: usize)
        ensures
            r == self.input.buf@.len(),
    {
        self.input.len()
    }

    /// Discards all buffered bytes and rewinds the cursor.
    pub fn clear(&mut self)
        ensures
            final(self).input.buf@ == Seq::<u8>::empty(),
            final(self).input.pos() == 0,
            final(self).input.wf(),
    {
        self.input.clear();
    }

    /// Appends more bytes for decoding; the cursor stays put.
    pub fn extend(&mut self, bytes: &[u8])
        ensures
            final(self).input.buf@ == old(self).input.buf@ + bytes@,
            final(self).input.pos() == old(self).input.pos(),
            old(self).input.wf() ==> final(self).input.wf(),
    {
        self.input.extend(bytes)
    }

    /// Decodes a string size header: tiny nibble, or an 8-, 16- or 32-bit
    /// signed size after its marker.
    pub fn unpack_string_header(&mut self) -> (r: Result<i32, BoltError>)
        ensures
            final(self).input.buf@ == old(self).input.buf@,
            old(self).input.wf() ==> final(self).input.wf(),
            match dec_string_head(old(self).input.buf@, old(self).input.pos()) {
                Some((s, j)) => r is Ok && r.unwrap() as int == s && final(self).input.pos() == j
                    && old(self).input.pos() < j <= old(self).input.buf@.len(),
                None => r is Err,
            },
            r is Err && !fits(old(self).input.buf@, old(self).input.pos(), 1) ==> r == Err::<
                i32,
                BoltError,
            >(BoltError::PackInputReadInvalidIndex),
            r is Err && fits(old(self).input.buf@, old(self).input.pos(), 1)
                && !is_string_head_marker(old(self).input.buf@[old(self).input.pos()]) ==> r
                == Err::<i32, BoltError>(BoltError::UnpackInvalidStringSize),
    {
        proof {
            lemma_p256_vals();
        }
        let byte = match self.input.read_u8() {
            Ok(b) => b,
            Err(e) => {
                return Err(e);
            },
        };
        if 0x80 <= byte && byte <= 0x8F {
            Ok((byte - 0x80) as i32)
        } else if byte == STRING_8 {
            match self.input.read_i8() {
                Ok(n) => Ok(n as i32),
                Err(e) => Err(e),
            }
        } else if byte == STRING_16 {
            match self.input.read_i16() {
                Ok(n) => Ok(n as i32),
                Err(e) => Err(e),
            }
        } else if byte == STRING_32 {
            match self.input.read_i32() {
                Ok(n) => Ok(n),
                Err(e) => Err(e),
            }
        } else {
            Err(BoltError::UnpackInvalidStringSize)
        }
    }

    /// Decodes a map size header; the stream marker yields the unknown-size
    /// sentinel.
    pub fn unpack_map_header(&mut self) -> (r: Result<i32, BoltError>)
        ensures
            final(self).input.buf@ == old(self).input.buf@,
            old(self).input.wf() ==> final(self).input.wf(),
            match dec_map_head(old(self).input.buf@, old(self).input.pos()) {
                Some((s, j)) => r is Ok && r.unwrap() as int == s && final(self).input.pos() == j
                    && old(self).input.pos() < j <= old(self).input.buf@.len(),
                None => r is Err,
            },
            r is Err && !fits(old(self).input.buf@, old(self).input.pos(), 1) ==> r == Err::<
                i32,
                BoltError,
            >(BoltError::PackInputReadInvalidIndex),
            r is Err && fits(old(self).input.buf@, old(self).input.pos(), 1) && !is_map_head_marker(
                old(self).input.buf@[old(self).input.pos()],
            ) ==> r == Err::<i32, BoltError>(BoltError::UnpackInvalidMapSize),
    {
        proof {
            lemma_p256_vals();
        }
        let byte = match self.input.read_u8() {
            Ok(b) => b,
            Err(e) => {
                return Err(e);
            },
        };
        if 0xA0 <= byte && byte <= 0xAF {
            Ok((byte - 0xA0) as i32)
        } else if byte == MAP_8 {
            match self.input.read_i8() {
                Ok(n) => Ok(n as i32),
                Err(e) => Err(e),
            }
        } else if byte == MAP_16 {
            match self.input.read_i16() {
                Ok(n) => Ok(n as i32),
                Err(e) => Err(e),
            }
        } else if byte == MAP_32 {
            match self.input.read_i32() {
                Ok(n) => Ok(n),
                Err(e) => Err(e),
            }
        } else if byte == MAP_STREAM {
            Ok(UNKNOWN_SIZE)
        } else {
            Err(BoltError::UnpackInvalidMapSize)
        }
    }

    /// Decodes a list size header; the stream marker yields the
    /// unknown-size sentinel.
    pub fn unpack_list_header(&mut self) -> (r: Result<i32, BoltError>)
        ensures
            final(self).input.buf@ == old(self).input.buf@,
            old(self).input.wf() ==> final(self).input.wf(),
            match dec_list_head(old(self).input.buf@, old(self).input.pos()) {
                Some((s, j)) => r is Ok && r.unwrap() as int == s && final(self).input.pos() == j
                    && old(self).input.pos() < j <= old(self).input.buf@.len(),
                None => r is Err,
            },
            r is Err && !fits(old(self).input.buf@, old(self).input.pos(), 1) ==> r == Err::<
                i32,
                BoltError,
            >(BoltError::PackInputReadInvalidIndex),
            r is Err && fits(old(self).input.buf@, old(self).input.pos(), 1)
                && !is_list_head_marker(old(self).input.buf@[old(self).input.pos()]) ==> r == Err::<
                i32,
                BoltError,
            >(BoltError::UnpackInvalidListSize),
    {
        proof {
            lemma_p256_vals();
        }
        let byte = match self.input.read_u8() {
            Ok(b) => b,
            Err(e) => {
                return Err(e);
            },
        };
        if 0x90 <= byte && byte <= 0x9F {
            Ok((byte - 0x90) as i32)
        } else if byte == LIST_8 {
            match self.input.read_i8() {
                Ok(n) => Ok(n as i32),
                Err(e) => Err(e),
            }
        } else if byte == LIST_16 {
            match self.input.read_i16() {
                Ok(n) => Ok(n as i32),
                Err(e) => Err(e),
            }
        } else if byte == LIST_32 {
            match self.input.read_i32() {
                Ok(n) => Ok(n),
                Err(e) => Err(e),
            }
        } else if byte == LIST_STREAM {
            Ok(UNKNOWN_SIZE)
        } else {
            Err(BoltError::UnpackInvalidListSize)
        }
    }

    /// Decodes a struct header (the field count): tiny, 8- or 16-bit only.
    pub fn unpack_struct_header(&mut self) -> (r: Result<i32, BoltError>)
        ensures
            final(self).input.buf@ == old(self).input.buf@,
            old(self).input.wf() ==> final(self).input.wf(),
            match dec_struct_head(old(self).input.buf@, old(self).input.pos()) {
                Some((s, j)) => r is Ok && r.unwrap() as int == s && final(self).input.pos() == j
                    && old(self).input.pos() < j <= old(self).input.buf@.len(),
                None => r is Err,
            },
            r is Err && !fits(old(self).input.buf@, old(self).input.pos(), 1) ==> r == Err::<
                i32,
                BoltError,
            >(BoltError::PackInputReadInvalidIndex),
            r is Err && fits(old(self).input.buf@, old(self).input.pos(), 1)
                && !is_struct_head_marker(old(self).input.buf@[old(self).input.pos()]) ==> r
                == Err::<i32, BoltError>(BoltError::UnpackInvalidStructSize),
    {
        proof {
            lemma_p256_vals();
        }
        let byte = match self.input.read_u8() {
            Ok(b) => b,
            Err(e) => {
                return Err(e);
            },
        };
        if 0xB0 <= byte && byte <= 0xBF {
            Ok((byte - 0xB0) as i32)
        } else if byte == STRUCT_8 {
            match self.input.read_i8() {
                Ok(n) => Ok(n as i32),
                Err(e) => Err(e),
            }
        } else if byte == STRUCT_16 {
            match self.input.read_i16() {
                Ok(n) => Ok(n as i32),
                Err(e) => Err(e),
            }
        } else {
            Err(BoltError::UnpackInvalidStructSize)
        }
    }

    /// Locates and returns a struct's signature byte without consuming
    /// anything: the caller can choose a record decoder before any bytes
    /// move.
    pub fn peek_struct_signature(&mut self) -> (r: Result<u8, BoltError>)
        ensures
            *final(self) == *old(self),
            match peek_sig(old(self).input.buf@, old(self).input.pos()) {
                Some(sig) => r is Ok && r.unwrap() == sig,
                None => r is Err,
            },
            r is Err && !fits(old(self).input.buf@, old(self).input.pos(), 1) ==> r == Err::<
                u8,
                BoltError,
            >(BoltError::PackInputPeekInvalidRange),
            r is Err && fits(old(self).input.buf@, old(self).input.pos(), 1)
                && !is_struct_head_marker(old(self).input.buf@[old(self).input.pos()]) ==> r
                == Err::<u8, BoltError>(BoltError::UnpackInvalidStructSize),
            r is Err && fits(old(self).input.buf@, old(self).input.pos(), 1)
                && is_struct_head_marker(old(self).input.buf@[old(self).input.pos()]) ==> r
                == Err::<u8, BoltError>(BoltError::PackInputPeekAtInvalidRange),
    {
        let byte = match self.input.peek() {
            Ok(b) => b,
            Err(_) => {
                return Err(BoltError::PackInputPeekInvalidRange);
            },
        };
        if 0xB0 <= byte && byte <= 0xBF {
            self.input.peek_at(1)
        } else if byte == STRUCT_8 {
            self.input.peek_at(2)
        } else if byte == STRUCT_16 {
            self.input.peek_at(3)
        } else {
            Err(BoltError::UnpackInvalidStructSize)
        }
    }

    /// Consumes the signature byte of a struct whose header has just been
    /// read.
    pub fn unpack_struct_signature(&mut self) -> (r: Result<u8, BoltError>)
        ensures
            final(self).input.buf@ == old(self).input.buf@,
            old(self).input.wf() ==> final(self).input.wf(),
            r is Ok <==> old(self).input.pos() < old(self).input.buf@.len(),
            r is Ok ==> final(self).input.pos() == old(self).input.pos() + 1 && r.unwrap() == old(
                self,
            ).input.buf@[old(self).input.pos()],
            r is Err ==> *final(self) == *old(self) && r == Err::<u8, BoltError>(
                BoltError::PackInputReadInvalidIndex,
            ),
    {
        self.input.read_u8()
    }

    /// Decodes a boolean: exactly the two fixed markers are accepted.
    pub fn unpack_bool(&mut self) -> (r: Result<bool, BoltError>)
        ensures
            final(self).input.buf@ == old(self).input.buf@,
            old(self).input.wf() ==> final(self).input.wf(),
            match dec_bool(old(self).input.buf@, old(self).input.pos()) {
                Some((x, j)) => r is Ok && r.unwrap() == x && final(self).input.pos() == j && old(
                    self,
                ).input.pos() < j <= old(self).input.buf@.len(),
                None => r is Err,
            },
            r is Err && !fits(old(self).input.buf@, old(self).input.pos(), 1) ==> r == Err::<
                bool,
                BoltError,
            >(BoltError::PackInputReadInvalidIndex),
            r is Err && fits(old(self).input.buf@, old(self).input.pos(), 1) ==> r == Err::<
                bool,
                BoltError,
            >(BoltError::UnpackInvalidBooleanMarker),
    {
        let byte = match self.input.read_u8() {
            Ok(b) => b,
            Err(e) => {
                return Err(e);
            },
        };
        if byte == TRUE {
            Ok(true)
        } else if byte == FALSE {
            Ok(false)
        } else {
            Err(BoltError::UnpackInvalidBooleanMarker)
        }
    }

    /// Decodes an integer of any tier, canonical or not.
    pub fn unpack_i64(&mut self) -> (r: Result<i64, BoltError>)
        ensures
            final(self).input.buf@ == old(self).input.buf@,
            old(self).input.wf() ==> final(self).input.wf(),
            match dec_int(old(self).input.buf@, old(self).input.pos()) {
                Some((n, j)) => r is Ok && r.unwrap() == n && final(self).input.pos() == j && old(
                    self,
                ).input.pos() < j <= old(self).input.buf@.len(),
                None => r is Err,
            },
            r is Err && !fits(old(self).input.buf@, old(self).input.pos(), 1) ==> r == Err::<
                i64,
                BoltError,
            >(BoltError::PackInputReadInvalidIndex),
            r is Err && fits(old(self).input.buf@, old(self).input.pos(), 1) && !is_int_marker(
                old(self).input.buf@[old(self).input.pos()],
            ) ==> r == Err::<i64, BoltError>(BoltError::UnpackInvalidIntMarker),
    {
        let byte = match self.input.read_u8() {
            Ok(b) => b,
            Err(e) => {
                return Err(e);
            },
        };
        if byte <= 0x7F {
            Ok(byte as i64)
        } else if byte >= 0xF0 {
            Ok((byte as i64) - 0x100)
        } else if byte == INT_8 {
            match self.input.read_i8() {
                Ok(n) => Ok(n as i64),
                Err(e) => Err(e),
            }
        } else if byte == INT_16 {
            match self.input.read_i16() {
                Ok(n) => Ok(n as i64),
                Err(e) => Err(e),
            }
        } else if byte == INT_32 {
            match self.input.read_i32() {
                Ok(n) => Ok(n as i64),
                Err(e) => Err(e),
            }
        } else if byte == INT_64 {
            match self.input.read_i64() {
                Ok(n) => Ok(n),
                Err(e) => Err(e),
            }
        } else {
            Err(BoltError::UnpackInvalidIntMarker)
        }
    }

    /// Decodes a float's bit pattern.  The marker byte is consumed without
    /// being checked: the decoder is deliberately lenient here and trusts
    /// the caller's dispatch.
    pub fn unpack_float_bits(&mut self) -> (r: Result<u64, BoltError>)
        ensures
            final(self).input.buf@ == old(self).input.buf@,
            old(self).input.wf() ==> final(self).input.wf(),
            match dec_float_bits(old(self).input.buf@, old(self).input.pos()) {
                Some((bits, j)) => r is Ok && r.unwrap() == bits && final(self).input.pos() == j
                    && old(self).input.pos() < j <= old(self).input.buf@.len(),
                None => r is Err && r == Err::<u64, BoltError>(
                    BoltError::PackInputReadInvalidIndex,
                ),
            },
    {
        let _marker = match self.input.read_u8() {
            Ok(b) => b,
            Err(e) => {
                return Err(e);
            },
        };
        match self.input.read_be(8) {
            Ok(u) => Ok(u),
            Err(e) => Err(e),
        }
    }

    /// Decodes a byte-array size header: an 8-, 16- or 32-bit signed size
    /// after its marker; byte arrays have no tiny form.
    pub fn unpack_bytes_header(&mut self) -> (r: Result<i32, BoltError>)
        ensures
            final(self).input.buf@ == old(self).input.buf@,
            old(self).input.wf() ==> final(self).input.wf(),
            match dec_bytes_head(old(self).input.buf@, old(self).input.pos()) {
                Some((s, j)) => r is Ok && r.unwrap() as int == s && final(self).input.pos() == j
                    && old(self).input.pos() < j <= old(self).input.buf@.len(),
                None => r is Err,
            },
            r is Err && !fits(old(self).input.buf@, old(self).input.pos(), 1) ==> r == Err::<
                i32,
                BoltError,
            >(BoltError::PackInputReadInvalidIndex),
            r is Err && fits(old(self).input.buf@, old(self).input.pos(), 1)
                && !is_bytes_head_marker(old(self).input.buf@[old(self).input.pos()]) ==> r
                == Err::<i32, BoltError>(BoltError::UnpackInvalidBytesSize),
    {
        proof {
            lemma_p256_vals();
        }
        let byte = match self.input.read_u8() {
            Ok(b) => b,
            Err(e) => {
                return Err(e);
            },
        };
        if byte == BYTES_8 {
            match self.input.read_i8() {
                Ok(n) => Ok(n as i32),
                Err(e) => Err(e),
            }
        } else if byte == BYTES_16 {
            match self.input.read_i16() {
                Ok(n) => Ok(n as i32),
                Err(e) => Err(e),
            }
        } else if byte == BYTES_32 {
            match self.input.read_i32() {
                Ok(n) => Ok(n),
                Err(e) => Err(e),
            }
        } else {
            Err(BoltError::UnpackInvalidBytesSize)
        }
    }

    /// Decodes a byte array: size header, then the raw payload.
    pub fn unpack_bytes(&mut self) -> (r: Result<Vec<u8>, BoltError>)
        ensures
            final(self).input.buf@ == old(self).input.buf@,
            old(self).input.wf() ==> final(self).input.wf(),
            match dec_bytes(old(self).input.buf@, old(self).input.pos()) {
                Some((s, j)) => r is Ok && r.unwrap()@ == s && final(self).input.pos() == j && old(
                    self,
                ).input.pos() < j <= old(self).input.buf@.len(),
                None => r is Err,
            },
            match dec_bytes_head(old(self).input.buf@, old(self).input.pos()) {
                Some((s, j)) => (s > 0 && j + s > old(self).input.buf@.len() ==> r == Err::<
                    Vec<u8>,
                    BoltError,
                >(BoltError::PackInputReadInvalidSliceRange)),
                None => true,
            },
            r is Err && !fits(old(self).input.buf@, old(self).input.pos(), 1) ==> r == Err::<
                Vec<u8>,
                BoltError,
            >(BoltError::PackInputReadInvalidIndex),
            r is Err && fits(old(self).input.buf@, old(self).input.pos(), 1)
                && !is_bytes_head_marker(old(self).input.buf@[old(self).input.pos()]) ==> r
                == Err::<Vec<u8>, BoltError>(BoltError::UnpackInvalidBytesSize),
    {
        let s = match self.unpack_bytes_header() {
            Ok(s) => s,
            Err(e) => {
                return Err(e);
            },
        };
        if s == 0 {
            Ok(Vec::new())
        } else if s < 0 {
            Err(BoltError::PackInputReadInvalidSliceRange)
        } else {
            self.input.read_slice(s as usize)
        }
    }

    /// Decodes a string's bytes: size header, then the raw payload.  Only a
    /// size or bounds problem can fail a string: the payload bytes are
    /// never inspected.
    pub fn unpack_string(&mut self) -> (r: Result<Vec<u8>, BoltError>)
        ensures
            final(self).input.buf@ == old(self).input.buf@,
            old(self).input.wf() ==> final(self).input.wf(),
            match dec_string(old(self).input.buf@, old(self).input.pos()) {
                Some((s, j)) => r is Ok && r.unwrap()@ == s && final(self).input.pos() == j && old(
                    self,
                ).input.pos() < j <= old(self).input.buf@.len(),
                None => r is Err,
            },
            match dec_string_head(old(self).input.buf@, old(self).input.pos()) {
                Some((s, j)) => (s > 0 && j + s > old(self).input.buf@.len() ==> r == Err::<
                    Vec<u8>,
                    BoltError,
                >(BoltError::PackInputReadInvalidSliceRange)),
                None => true,
            },
            r is Err && !fits(old(self).input.buf@, old(self).input.pos(), 1) ==> r == Err::<
                Vec<u8>,
                BoltError,
            >(BoltError::PackInputReadInvalidIndex),
            r is Err && fits(old(self).input.buf@, old(self).input.pos(), 1)
                && !is_string_head_marker(old(self).input.buf@[old(self).input.pos()]) ==> r
                == Err::<Vec<u8>, BoltError>(BoltError::UnpackInvalidStringSize),
    {
        let s = match self.unpack_string_header() {
            Ok(s) => s,
            Err(e) => {
                return Err(e);
            },
        };
        if s == 0 {
            Ok(Vec::new())
        } else if s < 0 {
            Err(BoltError::PackInputReadInvalidSliceRange)
        } else {
            self.input.read_slice(s as usize)
        }
    }

    /// Decodes exactly `s` values in a row.
    pub fn unpack_list(&mut self, s: usize) -> (r: Result<Vec<Value>, BoltError>)
        ensures
            final(self).input.buf@ == old(self).input.buf@,
            old(self).input.wf() ==> final(self).input.wf(),
            match dec_elems(old(self).input.buf@, old(self).input.pos(), s as int) {
                Some((xs, j)) => r is Ok && view_values(r.unwrap()) == xs && final(self).input.pos() == j
                    && (s > 0 ==> old(self).input.pos() < j <= old(self).input.buf@.len()) && (s
                    == 0 ==> j == old(self).input.pos()),
                None => r is Err,
            },
            r is Err && !fits(old(self).input.buf@, old(self).input.pos(), 1) ==> r
                == Err::<Vec<Value>, BoltError>(BoltError::PackInputPeekInvalidRange),
        decreases self.input.buf@.len() - self.input.pos(), 4int,
    {
        let ghost b = self.input.buf@;
        let ghost i0 = self.input.pos();
        let mut xs: Vec<Value> = Vec::new();
        let mut k: usize = 0;
        proof {
            assert(view_values(xs) =~= Seq::<ValueV>::empty());
        }
        #[verifier::loop_isolation(false)]
        while k < s
            invariant
                self.input.buf@ == b,
                k <= s,
                k > 0 ==> i0 < self.input.pos() <= b.len(),
                k == 0 ==> self.input.pos() == i0,
                dec_elems(b, i0, s as int) == glue(view_values(xs), dec_elems(b, self.input.pos(), s - k)),
            decreases s - k,
        {
            let ghost p0 = self.input.pos();
            let ghost pre = view_values(xs);
            let x = match self.unpack_value() {
                Ok(x) => x,
                Err(e) => {
                    return Err(e);
                },
            };
            proof {
                let vx = view_value(x);
                if let Some((rest, j)) = dec_elems(b, self.input.pos(), s - k - 1) {
                    assert(pre + (seq![vx] + rest) =~= pre.push(vx) + rest);
                }
            }
            xs.push(x);
            proof {
                assert(view_values(xs) =~= pre.push(view_value(x)));
            }
            k = k + 1;
        }
        proof {
            let pre = view_values(xs);
            assert(pre + Seq::<ValueV>::empty() =~= pre);
        }
        Ok(xs)
    }

    /// Decodes values until the end-of-stream byte, which is consumed
    /// without being counted.
    pub fn unpack_list_stream(&mut self) -> (r: Result<Vec<Value>, BoltError>)
        ensures
            final(self).input.buf@ == old(self).input.buf@,
            old(self).input.wf() ==> final(self).input.wf(),
            match dec_stream_elems(old(self).input.buf@, old(self).input.pos()) {
                Some((xs, j)) => r is Ok && view_values(r.unwrap()) == xs && final(self).input.pos() == j
                    && old(self).input.pos() < j <= old(self).input.buf@.len(),
                None => r is Err,
            },
            r is Err && !fits(old(self).input.buf@, old(self).input.pos(), 1) ==> r
                == Err::<Vec<Value>, BoltError>(BoltError::PackInputPeekInvalidRange),
        decreases self.input.buf@.len() - self.input.pos(), 4int,
    {
        let ghost b = self.input.buf@;
        let ghost i0 = self.input.pos();
        let mut xs: Vec<Value> = Vec::new();
        proof {
            assert(view_values(xs) =~= Seq::<ValueV>::empty());
        }
        #[verifier::loop_isolation(false)]
        loop
            invariant
                self.input.buf@ == b,
                i0 <= self.input.pos(),
                self.input.pos() > i0 ==> self.input.pos() <= b.len(),
                dec_stream_elems(b, i0) == glue(view_values(xs), dec_stream_elems(b, self.input.pos())),
            decreases b.len() - self.input.pos(),
        {
            let ghost p0 = self.input.pos();
            let ghost pre = view_values(xs);
            let byte = match self.input.peek() {
                Ok(x) => x,
                Err(e) => {
                    return Err(e);
                },
            };
            if byte == END_OF_STREAM {
                match self.input.read_u8() {
                    Ok(_) => {},
                    Err(e) => {
                        proof {
                            assert(false);
                        }
                        return Err(e);
                    },
                }
                proof {
                    assert(pre + Seq::<ValueV>::empty() =~= pre);
                }
                return Ok(xs);
            }
            let x = match self.unpack_value() {
                Ok(x) => x,
                Err(e) => {
                    return Err(e);
                },
            };
            proof {
                let vx = view_value(x);
                if let Some((rest, j)) = dec_stream_elems(b, self.input.pos()) {
                    assert(pre + (seq![vx] + rest) =~= pre.push(vx) + rest);
                }
            }
            xs.push(x);
            proof {
                assert(view_values(xs) =~= pre.push(view_value(x)));
            }
        }
    }


    /// Decodes exactly `s` strings in a row.
    pub fn unpack_strs(&mut self, s: usize) -> (r: Result<Vec<Vec<u8>>, BoltError>)
        ensures
            final(self).input.buf@ == old(self).input.buf@,
            old(self).input.wf() ==> final(self).input.wf(),
            match dec_strs_n(old(self).input.buf@, old(self).input.pos(), s as int) {
                Some((xs, j)) => r is Ok && view_strs_vec(r.unwrap()) == xs && final(self).input.pos() == j
                    && (s > 0 ==> old(self).input.pos() < j <= old(self).input.buf@.len()) && (s
                    == 0 ==> j == old(self).input.pos()),
                None => r is Err,
            },
            r is Err && !fits(old(self).input.buf@, old(self).input.pos(), 1) ==> r
                == Err::<Vec<Vec<u8>>, BoltError>(BoltError::PackInputReadInvalidIndex),
        {
        let ghost b = self.input.buf@;
        let ghost i0 = self.input.pos();
        let mut xs: Vec<Vec<u8>> = Vec::new();
        let mut k: usize = 0;
        proof {
            assert(view_strs_vec(xs) =~= Seq::<Seq<u8>>::empty());
        }
        #[verifier::loop_isolation(false)]
        while k < s
            invariant
                self.input.buf@ == b,
                k <= s,
                k > 0 ==> i0 < self.input.pos() <= b.len(),
                k == 0 ==> self.input.pos() == i0,
                dec_strs_n(b, i0, s as int) == glue(view_strs_vec(xs), dec_strs_n(b, self.input.pos(), s - k)),
            decreases s - k,
        {
            let ghost p0 = self.input.pos();
            let ghost pre = view_strs_vec(xs);
            let x = match self.unpack_string() {
                Ok(x) => x,
                Err(e) => {
                    return Err(e);
                },
            };
            proof {
                let vx = x@;
                if let Some((rest, j)) = dec_strs_n(b, self.input.pos(), s - k - 1) {
                    assert(pre + (seq![vx] + rest) =~= pre.push(vx) + rest);
                }
            }
            xs.push(x);
            proof {
                assert(view_strs_vec(xs) =~= pre.push(x@));
            }
            k = k + 1;
        }
        proof {
            let pre = view_strs_vec(xs);
            assert(pre + Seq::<Seq<u8>>::empty() =~= pre);
        }
        Ok(xs)
    }

    /// Decodes strings until the end-of-stream byte, which is consumed
    /// without being counted.
    pub fn unpack_strs_stream(&mut self) -> (r: Result<Vec<Vec<u8>>, BoltError>)
        ensures
            final(self).input.buf@ == old(self).input.buf@,
            old(self).input.wf() ==> final(self).input.wf(),
            match dec_stream_strs(old(self).input.buf@, old(self).input.pos()) {
                Some((xs, j)) => r is Ok && view_strs_vec(r.unwrap()) == xs && final(self).input.pos() == j
                    && old(self).input.pos() < j <= old(self).input.buf@.len(),
                None => r is Err,
            },
            r is Err && !fits(old(self).input.buf@, old(self).input.pos(), 1) ==> r
                == Err::<Vec<Vec<u8>>, BoltError>(BoltError::PackInputPeekInvalidRange),
        {
        let ghost b = self.input.buf@;
        let ghost i0 = self.input.pos();
        let mut xs: Vec<Vec<u8>> = Vec::new();
        proof {
            assert(view_strs_vec(xs) =~= Seq::<Seq<u8>>::empty());
        }
        #[verifier::loop_isolation(false)]
        loop
            invariant
                self.input.buf@ == b,
                i0 <= self.input.pos(),
                self.input.pos() > i0 ==> self.input.pos() <= b.len(),
                dec_stream_strs(b, i0) == glue(view_strs_vec(xs), dec_stream_strs(b, self.input.pos())),
            decreases b.len() - self.input.pos(),
        {
            let ghost p0 = self.input.pos();
            let ghost pre = view_strs_vec(xs);
            let byte = match self.input.peek() {
                Ok(x) => x,
                Err(e) => {
                    return Err(e);
                },
            };
            if byte == END_OF_STREAM {
                match self.input.read_u8() {
                    Ok(_) => {},
                    Err(e) => {
                        proof {
                            assert(false);
                        }
                        return Err(e);
                    },
                }
                proof {
                    assert(pre + Seq::<Seq<u8>>::empty() =~= pre);
                }
                return Ok(xs);
            }
            let x = match self.unpack_string() {
                Ok(x) => x,
                Err(e) => {
                    return Err(e);
                },
            };
            proof {
                let vx = x@;
                if let Some((rest, j)) = dec_stream_strs(b, self.input.pos()) {
                    assert(pre + (seq![vx] + rest) =~= pre.push(vx) + rest);
                }
            }
            xs.push(x);
            proof {
                assert(view_strs_vec(xs) =~= pre.push(x@));
            }
        }
    }


    /// Decodes exactly `s` integers in a row.
    pub fn unpack_i64s(&mut self, s: usize) -> (r: Result<Vec<i64>, BoltError>)
        ensures
            final(self).input.buf@ == old(self).input.buf@,
            old(self).input.wf() ==> final(self).input.wf(),
            match dec_i64s_n(old(self).input.buf@, old(self).input.pos(), s as int) {
                Some((xs, j)) => r is Ok && view_i64s(r.unwrap()) == xs && final(self).input.pos() == j
                    && (s > 0 ==> old(self).input.pos() < j <= old(self).input.buf@.len()) && (s
                    == 0 ==> j == old(self).input.pos()),
                None => r is Err,
            },
            r is Err && !fits(old(self).input.buf@, old(self).input.pos(), 1) ==> r
                == Err::<Vec<i64>, BoltError>(BoltError::PackInputReadInvalidIndex),
        {
        let ghost b = self.input.buf@;
        let ghost i0 = self.input.pos();
        let mut xs: Vec<i64> = Vec::new();
        let mut k: usize = 0;
        proof {
            assert(view_i64s(xs) =~= Seq::<i64>::empty());
        }
        #[verifier::loop_isolation(false)]
        while k < s
            invariant
                self.input.buf@ == b,
                k <= s,
                k > 0 ==> i0 < self.input.pos() <= b.len(),
                k == 0 ==> self.input.pos() == i0,
                dec_i64s_n(b, i0, s as int) == glue(view_i64s(xs), dec_i64s_n(b, self.input.pos(), s - k)),
            decreases s - k,
        {
            let ghost p0 = self.input.pos();
            let ghost pre = view_i64s(xs);
            let x = match self.unpack_i64() {
                Ok(x) => x,
                Err(e) => {
                    return Err(e);
                },
            };
            proof {
                let vx = x;
                if let Some((rest, j)) = dec_i64s_n(b, self.input.pos(), s - k - 1) {
                    assert(pre + (seq![vx] + rest) =~= pre.push(vx) + rest);
                }
            }
            xs.push(x);
            proof {
                assert(view_i64s(xs) =~= pre.push(x));
            }
            k = k + 1;
        }
        proof {
            let pre = view_i64s(xs);
            assert(pre + Seq::<i64>::empty() =~= pre);
        }
        Ok(xs)
    }

    /// Decodes integers until the end-of-stream byte, which is consumed
    /// without being counted.
    pub fn unpack_i64s_stream(&mut self) -> (r: Result<Vec<i64>, BoltError>)
        ensures
            final(self).input.buf@ == old(self).input.buf@,
            old(self).input.wf() ==> final(self).input.wf(),
            match dec_stream_i64s(old(self).input.buf@, old(self).input.pos()) {
                Some((xs, j)) => r is Ok && view_i64s(r.unwrap()) == xs && final(self).input.pos() == j
                    && old(self).input.pos() < j <= old(self).input.buf@.len(),
                None => r is Err,
            },
            r is Err && !fits(old(self).input.buf@, old(self).input.pos(), 1) ==> r
                == Err::<Vec<i64>, BoltError>(BoltError::PackInputPeekInvalidRange),
        {
        let ghost b = self.input.buf@;
        let ghost i0 = self.input.pos();
        let mut xs: Vec<i64> = Vec::new();
        proof {
            assert(view_i64s(xs) =~= Seq::<i64>::empty());
        }
        #[verifier::loop_isolation(false)]
        loop
            invariant
                self.input.buf@ == b,
                i0 <= self.input.pos(),
                self.input.pos() > i0 ==> self.input.pos() <= b.len(),
                dec_stream_i64s(b, i0) == glue(view_i64s(xs), dec_stream_i64s(b, self.input.pos())),
            decreases b.len() - self.input.pos(),
        {
            let ghost p0 = self.input.pos();
            let ghost pre = view_i64s(xs);
            let byte = match self.input.peek() {
                Ok(x) => x,
                Err(e) => {
                    return Err(e);
                },
            };
            if byte == END_OF_STREAM {
                match self.input.read_u8() {
                    Ok(_) => {},
                    Err(e) => {
                        proof {
                            assert(false);
                        }
                        return Err(e);
                    },
                }
                proof {
                    assert(pre + Seq::<i64>::empty() =~= pre);
                }
                return Ok(xs);
            }
            let x = match self.unpack_i64() {
                Ok(x) => x,
                Err(e) => {
                    return Err(e);
                },
            };
            proof {
                let vx = x;
                if let Some((rest, j)) = dec_stream_i64s(b, self.input.pos()) {
                    assert(pre + (seq![vx] + rest) =~= pre.push(vx) + rest);
                }
            }
            xs.push(x);
            proof {
                assert(view_i64s(xs) =~= pre.push(x));
            }
        }
    }


    /// Decodes exactly `s` node records in a row.
    pub fn unpack_nodes(&mut self, s: usize) -> (r: Result<Vec<Node>, BoltError>)
        ensures
            final(self).input.buf@ == old(self).input.buf@,
            old(self).input.wf() ==> final(self).input.wf(),
            match dec_nodes_n(old(self).input.buf@, old(self).input.pos(), s as int) {
                Some((xs, j)) => r is Ok && view_nodes(r.unwrap()) == xs && final(self).input.pos() == j
                    && (s > 0 ==> old(self).input.pos() < j <= old(self).input.buf@.len()) && (s
                    == 0 ==> j == old(self).input.pos()),
                None => r is Err,
            },
            r is Err && !fits(old(self).input.buf@, old(self).input.pos(), 1) ==> r
                == Err::<Vec<Node>, BoltError>(BoltError::PackInputReadInvalidIndex),
        decreases self.input.buf@.len() - self.input.pos(), 4int,
    {
        let ghost b = self.input.buf@;
        let ghost i0 = self.input.pos();
        let mut xs: Vec<Node> = Vec::new();
        let mut k: usize = 0;
        proof {
            assert(view_nodes(xs) =~= Seq::<NodeV>::empty());
        }
        #[verifier::loop_isolation(false)]
        while k < s
            invariant
                self.input.buf@ == b,
                k <= s,
                k > 0 ==> i0 < self.input.pos() <= b.len(),
                k == 0 ==> self.input.pos() == i0,
                dec_nodes_n(b, i0, s as int) == glue(view_nodes(xs), dec_nodes_n(b, self.input.pos(), s - k)),
            decreases s - k,
        {
            let ghost p0 = self.input.pos();
            let ghost pre = view_nodes(xs);
            let x = match self.unpack_node() {
                Ok(x) => x,
                Err(e) => {
                    return Err(e);
                },
            };
            proof {
                let vx = view_node(x);
                if let Some((rest, j)) = dec_nodes_n(b, self.input.pos(), s - k - 1) {
                    assert(pre + (seq![vx] + rest) =~= pre.push(vx) + rest);
                }
            }
            xs.push(x);
            proof {
                assert(view_nodes(xs) =~= pre.push(view_node(x)));
            }
            k = k + 1;
        }
        proof {
            let pre = view_nodes(xs);
            assert(pre + Seq::<NodeV>::empty() =~= pre);
        }
        Ok(xs)
    }

    /// Decodes node records until the end-of-stream byte, which is consumed
    /// without being counted.
    pub fn unpack_nodes_stream(&mut self) -> (r: Result<Vec<Node>, BoltError>)
        ensures
            final(self).input.buf@ == old(self).input.buf@,
            old(self).input.wf() ==> final(self).input.wf(),
            match dec_stream_nodes(old(self).input.buf@, old(self).input.pos()) {
                Some((xs, j)) => r is Ok && view_nodes(r.unwrap()) == xs && final(self).input.pos() == j
                    && old(self).input.pos() < j <= old(self).input.buf@.len(),
                None => r is Err,
            },
            r is Err && !fits(old(self).input.buf@, old(self).input.pos(), 1) ==> r
                == Err::<Vec<Node>, BoltError>(BoltError::PackInputPeekInvalidRange),
        decreases self.input.buf@.len() - self.input.pos(), 4int,
    {
        let ghost b = self.input.buf@;
        let ghost i0 = self.input.pos();
        let mut xs: Vec<Node> = Vec::new();
        proof {
            assert(view_nodes(xs) =~= Seq::<NodeV>::empty());
        }
        #[verifier::loop_isolation(false)]
        loop
            invariant
                self.input.buf@ == b,
                i0 <= self.input.pos(),
                self.input.pos() > i0 ==> self.input.pos() <= b.len(),
                dec_stream_nodes(b, i0) == glue(view_nodes(xs), dec_stream_nodes(b, self.input.pos())),
            decreases b.len() - self.input.pos(),
        {
            let ghost p0 = self.input.pos();
            let ghost pre = view_nodes(xs);
            let byte = match self.input.peek() {
                Ok(x) => x,
                Err(e) => {
                    return Err(e);
                },
            };
            if byte == END_OF_STREAM {
                match self.input.read_u8() {
                    Ok(_) => {},
                    Err(e) => {
                        proof {
                            assert(false);
                        }
                        return Err(e);
                    },
                }
                proof {
                    assert(pre + Seq::<NodeV>::empty() =~= pre);
                }
                return Ok(xs);
            }
            let x = match self.unpack_node() {
                Ok(x) => x,
                Err(e) => {
                    return Err(e);
                },
            };
            proof {
                let vx = view_node(x);
                if let Some((rest, j)) = dec_stream_nodes(b, self.input.pos()) {
                    assert(pre + (seq![vx] + rest) =~= pre.push(vx) + rest);
                }
            }
            xs.push(x);
            proof {
                assert(view_nodes(xs) =~= pre.push(view_node(x)));
            }
        }
    }


    /// Decodes exactly `s` unbound relationship records in a row.
    pub fn unpack_unbounds(&mut self, s: usize) -> (r: Result<Vec<UnboundRelationship>, BoltError>)
        ensures
            final(self).input.buf@ == old(self).input.buf@,
            old(self).input.wf() ==> final(self).input.wf(),
            match dec_unbounds_n(old(self).input.buf@, old(self).input.pos(), s as int) {
                Some((xs, j)) => r is Ok && view_unbounds(r.unwrap()) == xs && final(self).input.pos() == j
                    && (s > 0 ==> old(self).input.pos() < j <= old(self).input.buf@.len()) && (s
                    == 0 ==> j == old(self).input.pos()),
                None => r is Err,
            },
            r is Err && !fits(old(self).input.buf@, old(self).input.pos(), 1) ==> r
                == Err::<Vec<UnboundRelationship>, BoltError>(BoltError::PackInputReadInvalidIndex),
        decreases self.input.buf@.len() - self.input.pos(), 4int,
    {
        let ghost b = self.input.buf@;
        let ghost i0 = self.input.pos();
        let mut xs: Vec<UnboundRelationship> = Vec::new();
        let mut k: usize = 0;
        proof {
            assert(view_unbounds(xs) =~= Seq::<UnboundRelationshipV>::empty());
        }
        #[verifier::loop_isolation(false)]
        while k < s
            invariant
                self.input.buf@ == b,
                k <= s,
                k > 0 ==> i0 < self.input.pos() <= b.len(),
                k == 0 ==> self.input.pos() == i0,
                dec_unbounds_n(b, i0, s as int) == glue(view_unbounds(xs), dec_unbounds_n(b, self.input.pos(), s - k)),
            decreases s - k,
        {
            let ghost p0 = self.input.pos();
            let ghost pre = view_unbounds(xs);
            let x = match self.unpack_unbound() {
                Ok(x) => x,
                Err(e) => {
                    return Err(e);
                },
            };
            proof {
                let vx = view_unbound(x);
                if let Some((rest, j)) = dec_unbounds_n(b, self.input.pos(), s - k - 1) {
                    assert(pre + (seq![vx] + rest) =~= pre.push(vx) + rest);
                }
            }
            xs.push(x);
            proof {
                assert(view_unbounds(xs) =~= pre.push(view_unbound(x)));
            }
            k = k + 1;
        }
        proof {
            let pre = view_unbounds(xs);
            assert(pre + Seq::<UnboundRelationshipV>::empty() =~= pre);
        }
        Ok(xs)
    }

    /// Decodes unbound relationship records until the end-of-stream byte, which is consumed
    /// without being counted.
    pub fn unpack_unbounds_stream(&mut self) -> (r: Result<Vec<UnboundRelationship>, BoltError>)
        ensures
            final(self).input.buf@ == old(self).input.buf@,
            old(self).input.wf() ==> final(self).input.wf(),
            match dec_stream_unbounds(old(self).input.buf@, old(self).input.pos()) {
                Some((xs, j)) => r is Ok && view_unbounds(r.unwrap()) == xs && final(self).input.pos() == j
                    && old(self).input.pos() < j <= old(self).input.buf@.len(),
                None => r is Err,
            },
            r is Err && !fits(old(self).input.buf@, old(self).input.pos(), 1) ==> r
                == Err::<Vec<UnboundRelationship>, BoltError>(BoltError::PackInputPeekInvalidRange),
        decreases self.input.buf@.len() - self.input.pos(), 4int,
    {
        let ghost b = self.input.buf@;
        let ghost i0 = self.input.pos();
        let mut xs: Vec<UnboundRelationship> = Vec::new();
        proof {
            assert(view_unbounds(xs) =~= Seq::<UnboundRelationshipV>::empty());
        }
        #[verifier::loop_isolation(false)]
        loop
            invariant
                self.input.buf@ == b,
                i0 <= self.input.pos(),
                self.input.pos() > i0 ==> self.input.pos() <= b.len(),
                dec_stream_unbounds(b, i0) == glue(view_unbounds(xs), dec_stream_unbounds(b, self.input.pos())),
            decreases b.len() - self.input.pos(),
        {
            let ghost p0 = self.input.pos();
            let ghost pre = view_unbounds(xs);
            let byte = match self.input.peek() {
                Ok(x) => x,
                Err(e) => {
                    return Err(e);
                },
            };
            if byte == END_OF_STREAM {
                match self.input.read_u8() {
                    Ok(_) => {},
                    Err(e) => {
                        proof {
                            assert(false);
                        }
                        return Err(e);
                    },
                }
                proof {
                    assert(pre + Seq::<UnboundRelationshipV>::empty() =~= pre);
                }
                return Ok(xs);
            }
            let x = match self.unpack_unbound() {
                Ok(x) => x,
                Err(e) => {
                    return Err(e);
                },
            };
            proof {
                let vx = view_unbound(x);
                if let Some((rest, j)) = dec_stream_unbounds(b, self.input.pos()) {
                    assert(pre + (seq![vx] + rest) =~= pre.push(vx) + rest);
                }
            }
            xs.push(x);
            proof {
                assert(view_unbounds(xs) =~= pre.push(view_unbound(x)));
            }
        }
    }

    /// Decodes exactly `s` key/value pairs in a row.
    pub fn unpack_map(&mut self, s: usize) -> (r: Result<Vec<(Vec<u8>, Value)>, BoltError>)
        ensures
            final(self).input.buf@ == old(self).input.buf@,
            old(self).input.wf() ==> final(self).input.wf(),
            match dec_pairs(old(self).input.buf@, old(self).input.pos(), s as int) {
                Some((ps, j)) => r is Ok && view_pairs(r.unwrap()) == ps && final(self).input.pos()
                    == j && (s > 0 ==> old(self).input.pos() < j <= old(self).input.buf@.len()) && (
                s == 0 ==> j == old(self).input.pos()),
                None => r is Err,
            },
            r is Err && !fits(old(self).input.buf@, old(self).input.pos(), 1) ==> r
                == Err::<Vec<(Vec<u8>, Value)>, BoltError>(BoltError::PackInputReadInvalidIndex),
        decreases self.input.buf@.len() - self.input.pos(), 4int,
    {
        let ghost b = self.input.buf@;
        let ghost i0 = self.input.pos();
        let mut ps: Vec<(Vec<u8>, Value)> = Vec::new();
        let mut k: usize = 0;
        proof {
            assert(view_pairs(ps) =~= Seq::<(Seq<u8>, ValueV)>::empty());
        }
        #[verifier::loop_isolation(false)]
        while k < s
            invariant
                self.input.buf@ == b,
                k <= s,
                k > 0 ==> i0 < self.input.pos() <= b.len(),
                k == 0 ==> self.input.pos() == i0,
                ps@.len() == k,
                dec_pairs(b, i0, s as int) == glue(view_pairs(ps), dec_pairs(b, self.input.pos(), s - k)),
            decreases s - k,
        {
            let ghost p0 = self.input.pos();
            let ghost pre = view_pairs(ps);
            let key = match self.unpack_string() {
                Ok(x) => x,
                Err(e) => {
                    return Err(e);
                },
            };
            let val = match self.unpack_value() {
                Ok(x) => x,
                Err(e) => {
                    return Err(e);
                },
            };
            proof {
                let vx = (key@, view_value(val));
                if let Some((rest, j)) = dec_pairs(b, self.input.pos(), s - k - 1) {
                    assert(pre + (seq![vx] + rest) =~= pre.push(vx) + rest);
                }
            }
            ps.push((key, val));
            proof {
                assert(view_pairs(ps) =~= pre.push((ps[k as int].0@, view_value(ps[k as int].1))));
            }
            k = k + 1;
        }
        proof {
            let pre = view_pairs(ps);
            assert(pre + Seq::<(Seq<u8>, ValueV)>::empty() =~= pre);
        }
        Ok(ps)
    }

    /// Decodes key/value pairs until the end-of-stream byte, which is
    /// consumed without being counted.
    pub fn unpack_map_stream(&mut self) -> (r: Result<Vec<(Vec<u8>, Value)>, BoltError>)
        ensures
            final(self).input.buf@ == old(self).input.buf@,
            old(self).input.wf() ==> final(self).input.wf(),
            match dec_stream_pairs(old(self).input.buf@, old(self).input.pos()) {
                Some((ps, j)) => r is Ok && view_pairs(r.unwrap()) == ps && final(self).input.pos()
                    == j && old(self).input.pos() < j <= old(self).input.buf@.len(),
                None => r is Err,
            },
            r is Err && !fits(old(self).input.buf@, old(self).input.pos(), 1) ==> r
                == Err::<Vec<(Vec<u8>, Value)>, BoltError>(BoltError::PackInputPeekInvalidRange),
        decreases self.input.buf@.len() - self.input.pos(), 4int,
    {
        let ghost b = self.input.buf@;
        let ghost i0 = self.input.pos();
        let mut ps: Vec<(Vec<u8>, Value)> = Vec::new();
        proof {
            assert(view_pairs(ps) =~= Seq::<(Seq<u8>, ValueV)>::empty());
        }
        #[verifier::loop_isolation(false)]
        loop
            invariant
                self.input.buf@ == b,
                i0 <= self.input.pos(),
                self.input.pos() > i0 ==> self.input.pos() <= b.len(),
                dec_stream_pairs(b, i0) == glue(view_pairs(ps), dec_stream_pairs(b, self.input.pos())),
            decreases b.len() - self.input.pos(),
        {
            let ghost p0 = self.input.pos();
            let ghost pre = view_pairs(ps);
            let byte = match self.input.peek() {
                Ok(x) => x,
                Err(e) => {
                    return Err(e);
                },
            };
            if byte == END_OF_STREAM {
                match self.input.read_u8() {
                    Ok(_) => {},
                    Err(e) => {
                        proof {
                            assert(false);
                        }
                        return Err(e);
                    },
                }
                proof {
                    assert(pre + Seq::<(Seq<u8>, ValueV)>::empty() =~= pre);
                }
                return Ok(ps);
            }
            let key = match self.unpack_string() {
                Ok(x) => x,
                Err(e) => {
                    return Err(e);
                },
            };
            let val = match self.unpack_value() {
                Ok(x) => x,
                Err(e) => {
                    return Err(e);
                },
            };
            proof {
                let vx = (key@, view_value(val));
                if let Some((rest, j)) = dec_stream_pairs(b, self.input.pos()) {
                    assert(pre + (seq![vx] + rest) =~= pre.push(vx) + rest);
                }
            }
            let ghost n0 = ps@.len();
            ps.push((key, val));
            proof {
                assert(view_pairs(ps) =~= pre.push((ps[n0 as int].0@, view_value(ps[n0 as int].1))));
            }
        }
    }

    /// Decodes a map with text keys: size header, then pairs (counted or
    /// streamed).  A negative size other than the stream sentinel can never
    /// match the remaining bytes.
    pub fn unpack_dict(&mut self) -> (r: Result<Vec<(Vec<u8>, Value)>, BoltError>)
        ensures
            final(self).input.buf@ == old(self).input.buf@,
            old(self).input.wf() ==> final(self).input.wf(),
            match dec_dict(old(self).input.buf@, old(self).input.pos()) {
                Some((ps, j)) => r is Ok && view_pairs(r.unwrap()) == ps && final(self).input.pos()
                    == j && old(self).input.pos() < j <= old(self).input.buf@.len(),
                None => r is Err,
            },
            r is Err && !fits(old(self).input.buf@, old(self).input.pos(), 1) ==> r
                == Err::<Vec<(Vec<u8>, Value)>, BoltError>(BoltError::PackInputReadInvalidIndex),
        decreases self.input.buf@.len() - self.input.pos(), 2int,
    {
        let s = match self.unpack_map_header() {
            Ok(s) => s,
            Err(e) => {
                return Err(e);
            },
        };
        if s == 0 {
            let ps: Vec<(Vec<u8>, Value)> = Vec::new();
            proof {
                assert(view_pairs(ps) =~= Seq::<(Seq<u8>, ValueV)>::empty());
            }
            Ok(ps)
        } else if s == UNKNOWN_SIZE {
            self.unpack_map_stream()
        } else if s < 0 {
            Err(BoltError::PackInputReadInvalidIndex)
        } else {
            self.unpack_map(s as usize)
        }
    }

    /// Decodes a list of strings: size header, then elements (counted or
    /// streamed).
    pub fn unpack_str_list(&mut self) -> (r: Result<Vec<Vec<u8>>, BoltError>)
        ensures
            final(self).input.buf@ == old(self).input.buf@,
            old(self).input.wf() ==> final(self).input.wf(),
            match dec_str_list(old(self).input.buf@, old(self).input.pos()) {
                Some((xs, j)) => r is Ok && view_strs_vec(r.unwrap()) == xs && final(self).input.pos() == j && old(self).input.pos() < j <= old(self).input.buf@.len(),
                None => r is Err,
            },
            r is Err && !fits(old(self).input.buf@, old(self).input.pos(), 1) ==> r
                == Err::<Vec<Vec<u8>>, BoltError>(BoltError::PackInputReadInvalidIndex),
    {
        let s = match self.unpack_list_header() {
            Ok(s) => s,
            Err(e) => {
                return Err(e);
            },
        };
        if s == 0 {
            let v: Vec<Vec<u8>> = Vec::new();
            proof {
                assert(view_strs_vec(v) =~= Seq::<Seq<u8>>::empty());
            }
            Ok(v)
        } else if s == UNKNOWN_SIZE {
            self.unpack_strs_stream()
        } else if s < 0 {
            Err(BoltError::PackInputReadInvalidIndex)
        } else {
            self.unpack_strs(s as usize)
        }
    }

    /// Decodes a list of integers: size header, then elements (counted or
    /// streamed).
    pub fn unpack_i64_list(&mut self) -> (r: Result<Vec<i64>, BoltError>)
        ensures
            final(self).input.buf@ == old(self).input.buf@,
            old(self).input.wf() ==> final(self).input.wf(),
            match dec_i64_list(old(self).input.buf@, old(self).input.pos()) {
                Some((xs, j)) => r is Ok && r.unwrap()@ == xs && final(self).input.pos() == j && old(
                    self,
                ).input.pos() < j <= old(self).input.buf@.len(),
                None => r is Err,
            },
            r is Err && !fits(old(self).input.buf@, old(self).input.pos(), 1) ==> r
                == Err::<Vec<i64>, BoltError>(BoltError::PackInputReadInvalidIndex),
    {
        let s = match self.unpack_list_header() {
            Ok(s) => s,
            Err(e) => {
                return Err(e);
            },
        };
        if s == 0 {
            let v: Vec<i64> = Vec::new();
            Ok(v)
        } else if s == UNKNOWN_SIZE {
            self.unpack_i64s_stream()
        } else if s < 0 {
            Err(BoltError::PackInputReadInvalidIndex)
        } else {
            self.unpack_i64s(s as usize)
        }
    }

    /// Decodes a list of node records.
    pub fn unpack_node_list(&mut self) -> (r: Result<Vec<Node>, BoltError>)
        ensures
            final(self).input.buf@ == old(self).input.buf@,
            old(self).input.wf() ==> final(self).input.wf(),
            match dec_node_list(old(self).input.buf@, old(self).input.pos()) {
                Some((xs, j)) => r is Ok && view_nodes(r.unwrap()) == xs && final(self).input.pos()
                    == j && old(self).input.pos() < j <= old(self).input.buf@.len(),
                None => r is Err,
            },
            r is Err && !fits(old(self).input.buf@, old(self).input.pos(), 1) ==> r
                == Err::<Vec<Node>, BoltError>(BoltError::PackInputReadInvalidIndex),
        decreases self.input.buf@.len() - self.input.pos(), 5int,
    {
        let s = match self.unpack_list_header() {
            Ok(s) => s,
            Err(e) => {
                return Err(e);
            },
        };
        if s == 0 {
            let v: Vec<Node> = Vec::new();
            proof {
                assert(view_nodes(v) =~= Seq::<NodeV>::empty());
            }
            Ok(v)
        } else if s == UNKNOWN_SIZE {
            self.unpack_nodes_stream()
        } else if s < 0 {
            Err(BoltError::PackInputReadInvalidIndex)
        } else {
            self.unpack_nodes(s as usize)
        }
    }

    /// Decodes a list of unbound relationship records.
    pub fn unpack_unbound_list(&mut self) -> (r: Result<Vec<UnboundRelationship>, BoltError>)
        ensures
            final(self).input.buf@ == old(self).input.buf@,
            old(self).input.wf() ==> final(self).input.wf(),
            match dec_unbound_list(old(self).input.buf@, old(self).input.pos()) {
                Some((xs, j)) => r is Ok && view_unbounds(r.unwrap()) == xs && final(self).input.pos() == j && old(self).input.pos() < j <= old(self).input.buf@.len(),
                None => r is Err,
            },
            r is Err && !fits(old(self).input.buf@, old(self).input.pos(), 1) ==> r
                == Err::<Vec<UnboundRelationship>, BoltError>(BoltError::PackInputReadInvalidIndex),
        decreases self.input.buf@.len() - self.input.pos(), 5int,
    {
        let s = match self.unpack_list_header() {
            Ok(s) => s,
            Err(e) => {
                return Err(e);
            },
        };
        if s == 0 {
            let v: Vec<UnboundRelationship> = Vec::new();
            proof {
                assert(view_unbounds(v) =~= Seq::<UnboundRelationshipV>::empty());
            }
            Ok(v)
        } else if s == UNKNOWN_SIZE {
            self.unpack_unbounds_stream()
        } else if s < 0 {
            Err(BoltError::PackInputReadInvalidIndex)
        } else {
            self.unpack_unbounds(s as usize)
        }
    }

    /// Decodes a node record: struct header, signature byte (consumed, not
    /// re-checked after dispatch), then the three fields in declared order.
    pub fn unpack_node(&mut self) -> (r: Result<Node, BoltError>)
        ensures
            final(self).input.buf@ == old(self).input.buf@,
            old(self).input.wf() ==> final(self).input.wf(),
            match dec_node(old(self).input.buf@, old(self).input.pos()) {
                Some((nv, j)) => r is Ok && view_node(r.unwrap()) == nv && final(self).input.pos()
                    == j && old(self).input.pos() < j <= old(self).input.buf@.len(),
                None => r is Err,
            },
            r is Err && !fits(old(self).input.buf@, old(self).input.pos(), 1) ==> r
                == Err::<Node, BoltError>(BoltError::PackInputReadInvalidIndex),
        decreases self.input.buf@.len() - self.input.pos(), 1int,
    {
        match self.unpack_struct_header() {
            Ok(_) => {},
            Err(e) => {
                return Err(e);
            },
        }
        match self.unpack_struct_signature() {
            Ok(_) => {},
            Err(e) => {
                return Err(e);
            },
        }
        let id = match self.unpack_i64() {
            Ok(x) => x,
            Err(e) => {
                return Err(e);
            },
        };
        let labels = match self.unpack_str_list() {
            Ok(x) => x,
            Err(e) => {
                return Err(e);
            },
        };
        let properties = match self.unpack_dict() {
            Ok(x) => x,
            Err(e) => {
                return Err(e);
            },
        };
        Ok(Node { id, labels, properties })
    }

    /// Decodes a relationship record: struct header, signature, then the
    /// five fields in declared order.
    pub fn unpack_relationship(&mut self) -> (r: Result<Relationship, BoltError>)
        ensures
            final(self).input.buf@ == old(self).input.buf@,
            old(self).input.wf() ==> final(self).input.wf(),
            match dec_relationship(old(self).input.buf@, old(self).input.pos()) {
                Some((rv, j)) => r is Ok && view_relationship(r.unwrap()) == rv && final(self).input.pos() == j && old(self).input.pos() < j <= old(self).input.buf@.len(),
                None => r is Err,
            },
            r is Err && !fits(old(self).input.buf@, old(self).input.pos(), 1) ==> r
                == Err::<Relationship, BoltError>(BoltError::PackInputReadInvalidIndex),
        decreases self.input.buf@.len() - self.input.pos(), 1int,
    {
        match self.unpack_struct_header() {
            Ok(_) => {},
            Err(e) => {
                return Err(e);
            },
        }
        match self.unpack_struct_signature() {
            Ok(_) => {},
            Err(e) => {
                return Err(e);
            },
        }
        let id = match self.unpack_i64() {
            Ok(x) => x,
            Err(e) => {
                return Err(e);
            },
        };
        let start_node_id = match self.unpack_i64() {
            Ok(x) => x,
            Err(e) => {
                return Err(e);
            },
        };
        let end_node_id = match self.unpack_i64() {
            Ok(x) => x,
            Err(e) => {
                return Err(e);
            },
        };
        let rel_type = match self.unpack_string() {
            Ok(x) => x,
            Err(e) => {
                return Err(e);
            },
        };
        let properties = match self.unpack_dict() {
            Ok(x) => x,
            Err(e) => {
                return Err(e);
            },
        };
        Ok(Relationship { id, start_node_id, end_node_id, rel_type, properties })
    }

    /// Decodes an unbound relationship record: struct header, signature,
    /// then the three fields in declared order.
    pub fn unpack_unbound(&mut self) -> (r: Result<UnboundRelationship, BoltError>)
        ensures
            final(self).input.buf@ == old(self).input.buf@,
            old(self).input.wf() ==> final(self).input.wf(),
            match dec_unbound(old(self).input.buf@, old(self).input.pos()) {
                Some((rv, j)) => r is Ok && view_unbound(r.unwrap()) == rv && final(self).input.pos() == j && old(self).input.pos() < j <= old(self).input.buf@.len(),
                None => r is Err,
            },
            r is Err && !fits(old(self).input.buf@, old(self).input.pos(), 1) ==> r
                == Err::<UnboundRelationship, BoltError>(BoltError::PackInputReadInvalidIndex),
        decreases self.input.buf@.len() - self.input.pos(), 1int,
    {
        match self.unpack_struct_header() {
            Ok(_) => {},
            Err(e) => {
                return Err(e);
            },
        }
        match self.unpack_struct_signature() {
            Ok(_) => {},
            Err(e) => {
                return Err(e);
            },
        }
        let id = match self.unpack_i64() {
            Ok(x) => x,
            Err(e) => {
                return Err(e);
            },
        };
        let rel_type = match self.unpack_string() {
            Ok(x) => x,
            Err(e) => {
                return Err(e);
            },
        };
        let properties = match self.unpack_dict() {
            Ok(x) => x,
            Err(e) => {
                return Err(e);
            },
        };
        Ok(UnboundRelationship { id, rel_type, properties })
    }

    /// Decodes a path record: struct header, signature, then its three list
    /// fields in declared order.
    pub fn unpack_path(&mut self) -> (r: Result<Path, BoltError>)
        ensures
            final(self).input.buf@ == old(self).input.buf@,
            old(self).input.wf() ==> final(self).input.wf(),
            match dec_path(old(self).input.buf@, old(self).input.pos()) {
                Some((pv, j)) => r is Ok && view_path(r.unwrap()) == pv && final(self).input.pos()
                    == j && old(self).input.pos() < j <= old(self).input.buf@.len(),
                None => r is Err,
            },
            r is Err && !fits(old(self).input.buf@, old(self).input.pos(), 1) ==> r
                == Err::<Path, BoltError>(BoltError::PackInputReadInvalidIndex),
        decreases self.input.buf@.len() - self.input.pos(), 1int,
    {
        match self.unpack_struct_header() {
            Ok(_) => {},
            Err(e) => {
                return Err(e);
            },
        }
        match self.unpack_struct_signature() {
            Ok(_) => {},
            Err(e) => {
                return Err(e);
            },
        }
        let nodes = match self.unpack_node_list() {
            Ok(x) => x,
            Err(e) => {
                return Err(e);
            },
        };
        let relationships = match self.unpack_unbound_list() {
            Ok(x) => x,
            Err(e) => {
                return Err(e);
            },
        };
        let sequence = match self.unpack_i64_list() {
            Ok(x) => x,
            Err(e) => {
                return Err(e);
            },
        };
        Ok(Path { nodes, relationships, sequence })
    }

    /// Decodes any record of the catalogue: the signature byte is located
    /// by lookahead without consuming anything, dispatch selects the
    /// record's decoder, and that decoder re-reads from the header's start.
    pub fn unpack_struct(&mut self) -> (r: Result<Struct, BoltError>)
        ensures
            final(self).input.buf@ == old(self).input.buf@,
            old(self).input.wf() ==> final(self).input.wf(),
            match dec_record(old(self).input.buf@, old(self).input.pos()) {
                Some((sv, j)) => r is Ok && view_struct(r.unwrap()) == sv && final(self).input.pos() == j && old(self).input.pos() < j <= old(self).input.buf@.len(),
                None => r is Err,
            },
            r is Err && !fits(old(self).input.buf@, old(self).input.pos(), 1) ==> r
                == Err::<Struct, BoltError>(BoltError::PackInputPeekInvalidRange),
        decreases self.input.buf@.len() - self.input.pos(), 2int,
    {
        let sig = match self.peek_struct_signature() {
            Ok(s) => s,
            Err(e) => {
                return Err(e);
            },
        };
        if sig == STRUCT_NODE {
            match self.unpack_node() {
                Ok(n) => Ok(Struct::Node(n)),
                Err(e) => Err(e),
            }
        } else if sig == STRUCT_RELATIONSHIP {
            match self.unpack_relationship() {
                Ok(x) => Ok(Struct::Relationship(x)),
                Err(e) => Err(e),
            }
        } else if sig == STRUCT_PATH {
            match self.unpack_path() {
                Ok(x) => Ok(Struct::Path(x)),
                Err(e) => Err(e),
            }
        } else if sig == STRUCT_UNBOUND_RELATIONSHIP {
            match self.unpack_unbound() {
                Ok(x) => Ok(Struct::UnboundRelationship(x)),
                Err(e) => Err(e),
            }
        } else {
            Err(BoltError::Unmanaged)
        }
    }

    /// Decodes a whole value: the next marker is classified without being
    /// consumed and the matching typed decoder takes over.  A reserved or
    /// end-of-stream marker in value position is unmanaged input.
    #[verifier::rlimit(100)]
    pub fn unpack_value(&mut self) -> (r: Result<Value, BoltError>)
        ensures
            final(self).input.buf@ == old(self).input.buf@,
            old(self).input.wf() ==> final(self).input.wf(),
            match dec_value(old(self).input.buf@, old(self).input.pos()) {
                Some((vv, j)) => r is Ok && view_value(r.unwrap()) == vv && final(self).input.pos()
                    == j && old(self).input.pos() < j <= old(self).input.buf@.len(),
                None => r is Err,
            },
            r is Err && !fits(old(self).input.buf@, old(self).input.pos(), 1) ==> r == Err::<
                Value,
                BoltError,
            >(BoltError::PackInputPeekInvalidRange),
            r is Err && fits(old(self).input.buf@, old(self).input.pos(), 1) && (classify(
                old(self).input.buf@[old(self).input.pos()],
            ) is Bytes || classify(old(self).input.buf@[old(self).input.pos()]) is EndOfStream
                || classify(old(self).input.buf@[old(self).input.pos()]) is Reserved) ==> r
                == Err::<Value, BoltError>(BoltError::Unmanaged),
        decreases self.input.buf@.len() - self.input.pos(), 3int,
    {
        let byte = match self.input.peek() {
            Ok(x) => x,
            Err(e) => {
                return Err(e);
            },
        };
        match PackType::from(byte) {
            PackType::Null => match self.input.read_u8() {
                Ok(_) => Ok(Value::Null),
                Err(e) => {
                    proof {
                        assert(false);
                    }
                    Err(e)
                },
            },
            PackType::Boolean => match self.unpack_bool() {
                Ok(x) => Ok(Value::Boolean(x)),
                Err(e) => Err(e),
            },
            PackType::Int => match self.unpack_i64() {
                Ok(x) => Ok(Value::Int(x)),
                Err(e) => Err(e),
            },
            PackType::Float => match self.unpack_float_bits() {
                Ok(x) => Ok(Value::Float(x)),
                Err(e) => Err(e),
            },
            PackType::String => match self.unpack_string() {
                Ok(x) => Ok(Value::String(x)),
                Err(e) => Err(e),
            },
            PackType::List => {
                let s = match self.unpack_list_header() {
                    Ok(s) => s,
                    Err(e) => {
                        return Err(e);
                    },
                };
                if s == 0 {
                    let v: Vec<Value> = Vec::new();
                    proof {
                        assert(view_values(v) =~= Seq::<ValueV>::empty());
                    }
                    Ok(Value::List(v))
                } else if s == UNKNOWN_SIZE {
                    match self.unpack_list_stream() {
                        Ok(xs) => Ok(Value::List(xs)),
                        Err(e) => Err(e),
                    }
                } else if s < 0 {
                    Err(BoltError::PackInputReadInvalidIndex)
                } else {
                    match self.unpack_list(s as usize) {
                        Ok(xs) => Ok(Value::List(xs)),
                        Err(e) => Err(e),
                    }
                }
            },
            PackType::Dict => match self.unpack_dict() {
                Ok(ps) => Ok(Value::Dict(ps)),
                Err(e) => Err(e),
            },
            PackType::Struct => match self.unpack_struct() {
                Ok(st) => Ok(Value::Struct(st)),
                Err(e) => Err(e),
            },
            PackType::Bytes => Err(BoltError::Unmanaged),
            PackType::EndOfStream => Err(BoltError::Unmanaged),
            PackType::Reserved => Err(BoltError::Unmanaged),
        }
    }
}


/// Prepends already-decoded elements to the outcome of decoding the rest.
pub open spec fn glue<T>(pre: Seq<T>, o: Option<(Seq<T>, int)>) -> Option<(Seq<T>, int)> {
    match o {
        Some((xs, j)) => Some((pre + xs, j)),
        None => None,
    }
}

pub open spec fn view_strs_vec(s: Vec<Vec<u8>>) -> Seq<Seq<u8>> {
    view_strs(s@)
}

pub open spec fn view_i64s(s: Vec<i64>) -> Seq<i64> {
    s@
}

/// `p256` grows with the width.
proof fn lemma_p256_mono(a: nat, b: nat)
    requires
        a <= b,
    ensures
        p256(a) <= p256(b),
    decreases b,
{
    lemma_p256_pos(a);
    if a < b {
        lemma_p256_mono(a, (b - 1) as nat);
        lemma_p256_pos((b - 1) as nat);
    }
}

/// The generic decoding contract: one `unpack` per supported value type.
/// Each implementation succeeds exactly when the spec decoder yields
/// something at the cursor, and then returns exactly that value with the
/// cursor at the spec decoder's end position.
pub trait UnpackValue<T> {
    /// The decoder's byte source, seen abstractly.
    spec fn src(&self) -> Seq<u8>;

    /// The decoder's cursor position, seen abstractly.
    spec fn at(&self) -> int;

    /// The spec decoder yields something at position `i` of `b`.
    spec fn dec_some(b: Seq<u8>, i: int) -> bool;

    /// The result `v` and end position `j` are what the spec decoder
    /// yields at position `i` of `b`.
    spec fn dec_is(b: Seq<u8>, i: int, v: &T, j: int) -> bool;

    fn unpack(&mut self) -> (r: Result<T, BoltError>)
        ensures
            final(self).src() == old(self).src(),
            r is Ok <==> Self::dec_some(old(self).src(), old(self).at()),
            r is Ok ==> Self::dec_is(
                old(self).src(),
                old(self).at(),
                &r.unwrap(),
                final(self).at(),
            ),
    ;
}

impl UnpackValue<bool> for Unpacker {
    open spec fn src(&self) -> Seq<u8> {
        self.input.buf@
    }

    open spec fn at(&self) -> int {
        self.input.pos()
    }

    open spec fn dec_some(b: Seq<u8>, i: int) -> bool {
        dec_bool(b, i) is Some
    }

    open spec fn dec_is(b: Seq<u8>, i: int, v: &bool, j: int) -> bool {
        dec_bool(b, i) == Some((*v, j))
    }

    fn unpack(&mut self) -> (r: Result<bool, BoltError>) {
        self.unpack_bool()
    }
}

impl UnpackValue<i64> for Unpacker {
    open spec fn src(&self) -> Seq<u8> {
        self.input.buf@
    }

    open spec fn at(&self) -> int {
        self.input.pos()
    }

    open spec fn dec_some(b: Seq<u8>, i: int) -> bool {
        dec_int(b, i) is Some
    }

    open spec fn dec_is(b: Seq<u8>, i: int, v: &i64, j: int) -> bool {
        dec_int(b, i) == Some((*v, j))
    }

    fn unpack(&mut self) -> (r: Result<i64, BoltError>) {
        self.unpack_i64()
    }
}

impl UnpackValue<Vec<u8>> for Unpacker {
    open spec fn src(&self) -> Seq<u8> {
        self.input.buf@
    }

    open spec fn at(&self) -> int {
        self.input.pos()
    }

    open spec fn dec_some(b: Seq<u8>, i: int) -> bool {
        dec_string(b, i) is Some
    }

    open spec fn dec_is(b: Seq<u8>, i: int, v: &Vec<u8>, j: int) -> bool {
        dec_string(b, i) == Some((v@, j))
    }

    fn unpack(&mut self) -> (r: Result<Vec<u8>, BoltError>) {
        self.unpack_string()
    }
}

impl UnpackValue<Value> for Unpacker {
    open spec fn src(&self) -> Seq<u8> {
        self.input.buf@
    }

    open spec fn at(&self) -> int {
        self.input.pos()
    }

    open spec fn dec_some(b: Seq<u8>, i: int) -> bool {
        dec_value(b, i) is Some
    }

    open spec fn dec_is(b: Seq<u8>, i: int, v: &Value, j: int) -> bool {
        dec_value(b, i) == Some((view_value(*v), j))
    }

    fn unpack(&mut self) -> (r: Result<Value, BoltError>) {
        self.unpack_value()
    }
}

impl UnpackValue<Struct> for Unpacker {
    open spec fn src(&self) -> Seq<u8> {
        self.input.buf@
    }

    open spec fn at(&self) -> int {
        self.input.pos()
    }

    open spec fn dec_some(b: Seq<u8>, i: int) -> bool {
        dec_record(b, i) is Some
    }

    open spec fn dec_is(b: Seq<u8>, i: int, v: &Struct, j: int) -> bool {
        dec_record(b, i) == Some((view_struct(*v), j))
    }

    fn unpack(&mut self) -> (r: Result<Struct, BoltError>) {
        self.unpack_struct()
    }
}

} // verus!
