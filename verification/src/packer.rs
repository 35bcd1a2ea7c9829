//! The encoder: append-only output buffer and the tiered marker writers.
//!
//! Every operation appends to the output buffer and fails only on a size
//! that no header tier can represent; on failure of a header writer nothing
//! is written.  Each writer's contract states the exact bytes appended, in
//! terms of the spec encodings of [`crate::wire`].
use vstd::prelude::*;
use crate::consts::FALSE;
use crate::consts::FLOAT_64;
use crate::consts::INT_16;
use crate::consts::INT_32;
use crate::consts::INT_64;
use crate::consts::INT_8;
use crate::consts::STRUCT_16;
use crate::consts::STRUCT_8;
use crate::consts::TINY_STRUCT;
use crate::consts::TRUE;
use crate::error::BoltError;
use crate::consts::BYTES_16;
use crate::consts::BYTES_32;
use crate::consts::BYTES_8;
use crate::wire::be_bytes;
use crate::wire::enc_bytes;
use crate::wire::enc_head3;
use crate::wire::enc_head4;
use crate::wire::enc_int;
use crate::wire::enc_struct_head;
use crate::wire::lemma_p256_vals;
use crate::wire::p256;
use crate::wire::srep;
use crate::consts::LIST_16;
use crate::consts::LIST_32;
use crate::consts::LIST_8;
use crate::consts::MAP_16;
use crate::consts::MAP_32;
use crate::consts::MAP_8;
use crate::consts::NULL;
use crate::consts::STRING_16;
use crate::consts::STRING_32;
use crate::consts::STRING_8;
use crate::consts::STRUCT_NODE;
use crate::consts::STRUCT_PATH;
use crate::consts::STRUCT_RELATIONSHIP;
use crate::consts::STRUCT_UNBOUND_RELATIONSHIP;
use crate::consts::TINY_LIST;
use crate::consts::TINY_MAP;
use crate::consts::TINY_STRING;
use crate::structs::Node;
use crate::structs::Path;
use crate::structs::Relationship;
use crate::structs::Struct;
use crate::structs::UnboundRelationship;
use crate::structs::can_enc_dict;
use crate::structs::can_enc_node;
use crate::structs::can_enc_nodes;
use crate::structs::can_enc_path;
use crate::structs::can_enc_record;
use crate::structs::can_enc_relationship;
use crate::structs::can_enc_strs;
use crate::structs::can_enc_unbound;
use crate::structs::can_enc_unbounds;
use crate::structs::enc_dict;
use crate::structs::enc_i64_list;
use crate::structs::enc_i64s;
use crate::structs::enc_node;
use crate::structs::enc_nodes;
use crate::structs::enc_path;
use crate::structs::enc_record;
use crate::structs::enc_relationship;
use crate::structs::enc_str_list;
use crate::structs::enc_strs;
use crate::structs::enc_unbound;
use crate::structs::enc_unbounds;
use crate::structs::lemma_can_enc_nodes_index;
use crate::structs::lemma_can_enc_unbounds_index;
use crate::structs::lemma_enc_i64s_push;
use crate::structs::lemma_enc_nodes_push;
use crate::structs::lemma_enc_strs_push;
use crate::structs::lemma_enc_unbounds_push;
use crate::structs::view_node;
use crate::structs::view_nodes;
use crate::structs::view_unbounds;
use crate::structs::view_path;
use crate::structs::view_relationship;
use crate::structs::view_strs;
use crate::structs::view_struct;
use crate::structs::view_unbound;
use crate::value::Value;
use crate::value::can_enc_pairs;
use crate::value::can_enc_value;
use crate::value::can_enc_values;
use crate::value::enc_pairs;
use crate::value::enc_string;
use crate::value::enc_value;
use crate::value::enc_values;
use crate::value::lemma_can_enc_pairs_index;
use crate::value::lemma_can_enc_values_index;
use crate::value::lemma_enc_pairs_push;
use crate::value::lemma_enc_values_push;
use crate::value::view_pairs;
use crate::value::view_value;
use crate::value::view_values;

verus! {

broadcast use vstd::std_specs::vec::axiom_vec_index_decreases;

/// The sole sink of the encoder: an append-only growable byte sequence.
pub struct PackOutput {
    pub buf: Vec<u8>,
}

impl PackOutput {
    pub fn new() -> (r: Self)
        ensures
            r.buf@ == Seq::<u8>::empty(),
    {
        PackOutput { buf: Vec::new() }
    }

    /// Appends one byte.  Appending never fails; the `Result` keeps the
    /// signature uniform with the fallible header writers.
    pub fn push_byte(&mut self, byte: u8) -> (r: Result<(), BoltError>)
        ensures
            r is Ok,
            final(self).buf@ == old(self).buf@.push(byte),
    {
        self.buf.push(byte);
        Ok(())
    }

    /// Appends a run of bytes in order.
    pub fn push_bytes(&mut self, bytes: &[u8]) -> (r: Result<(), BoltError>)
        ensures
            r is Ok,
            final(self).buf@ == old(self).buf@ + bytes@,
    {
        let mut k: usize = 0;
        while k < bytes.len()
            invariant
                k <= bytes@.len(),
                self.buf@ == old(self).buf@ + bytes@.subrange(0, k as int),
            decreases bytes@.len() - k,
        {
            let b = bytes[k];
            self.buf.push(b);
            assert(old(self).buf@ + bytes@.subrange(0, k + 1) =~= (old(self).buf@ + bytes@.subrange(
                0,
                k as int,
            )).push(b));
            k = k + 1;
        }
        assert(bytes@.subrange(0, bytes@.len() as int) =~= bytes@);
        Ok(())
    }
}

/// The encoder: stateless algorithms writing into a [`PackOutput`].
pub struct Packer {
    pub out: PackOutput,
}

impl Packer {
    pub fn new() -> (r: Self)
        ensures
            r.out.buf@ == Seq::<u8>::empty(),
    {
        Packer { out: PackOutput::new() }
    }

    /// The number of bytes encoded so far.
    pub fn len(&mut self) -> (r: usize)
        ensures
            *final(self) == *old(self),
            r == final(self).out.buf@.len(),
    {
        self.out.buf.len()
    }

    /// Appends the big-endian `w`-byte string of `u` (the low `w` bytes of
    /// `u`, most significant first).
    fn push_be(&mut self, u: u64, w: u8) -> (r: Result<(), BoltError>)
        requires
            w <= 8,
        ensures
            r is Ok,
            final(self).out.buf@ == old(self).out.buf@ + be_bytes(u as int, w as nat),
        decreases w,
    {
        if w == 0 {
            assert(old(self).out.buf@ + be_bytes(u as int, 0) =~= old(self).out.buf@);
            Ok(())
        } else {
            let q = u / 256;
            let rem = u % 256;
            let res = self.push_be(q, w - 1);
            let res2 = self.out.push_byte(rem as u8);
            proof {
                assert(q as int == (u as int) / 256 && rem as int == (u as int) % 256);
                assert(old(self).out.buf@ + be_bytes(u as int, w as nat) =~= (old(self).out.buf@
                    + be_bytes((u as int) / 256, (w - 1) as nat)).push(((u as int) % 256) as u8));
            }
            Ok(())
        }
    }

    /// Writes the three-tier size header: 8-, 16- or 32-bit, each capped at
    /// its signed-positive maximum.  A size beyond the 32-bit tier is a hard
    /// failure with nothing written.
    pub fn pack_head3(&mut self, size: usize, h8: u8, h16: u8, h32: u8) -> (r: Result<
        (),
        BoltError,
    >)
        ensures
            r is Ok <==> size <= 0x7FFFFFFF,
            size <= 0x7FFFFFFF ==> final(self).out.buf@ == old(self).out.buf@ + enc_head3(
                size as int,
                h8,
                h16,
                h32,
            ),
            size > 0x7FFFFFFF ==> final(self).out.buf@ == old(self).out.buf@ && r == Err::<
                (),
                BoltError,
            >(BoltError::PackHeaderSizeOverflow),
    {
        if size <= 0x7F {
            let r1 = self.out.push_byte(h8);
            let r2 = self.out.push_byte(size as u8);
            proof {
                assert(old(self).out.buf@ + enc_head3(size as int, h8, h16, h32) =~= old(
                    self,
                ).out.buf@.push(h8).push(size as u8));
            }
            Ok(())
        } else if size <= 0x7FFF {
            let r1 = self.out.push_byte(h16);
            let r2 = self.push_be(size as u64, 2);
            proof {
                assert(old(self).out.buf@ + enc_head3(size as int, h8, h16, h32) =~= (old(
                    self,
                ).out.buf@.push(h16)) + be_bytes(size as int, 2));
            }
            Ok(())
        } else if size <= 0x7FFFFFFF {
            let r1 = self.out.push_byte(h32);
            let r2 = self.push_be(size as u64, 4);
            proof {
                assert(old(self).out.buf@ + enc_head3(size as int, h8, h16, h32) =~= (old(
                    self,
                ).out.buf@.push(h32)) + be_bytes(size as int, 4));
            }
            Ok(())
        } else {
            Err(BoltError::PackHeaderSizeOverflow)
        }
    }

    /// Writes the four-tier size header: sizes `0..=15` fold into the tiny
    /// marker `h4`, larger sizes escalate through [`Packer::pack_head3`].
    pub fn pack_head4(&mut self, size: usize, h4: u8, h8: u8, h16: u8, h32: u8) -> (r: Result<
        (),
        BoltError,
    >)
        requires
            h4 == 0x80 || h4 == 0x90 || h4 == 0xA0 || h4 == 0xB0,
        ensures
            r is Ok <==> size <= 0x7FFFFFFF,
            size <= 0x7FFFFFFF ==> final(self).out.buf@ == old(self).out.buf@ + enc_head4(
                size as int,
                h4,
                h8,
                h16,
                h32,
            ),
            size > 0x7FFFFFFF ==> final(self).out.buf@ == old(self).out.buf@ && r == Err::<
                (),
                BoltError,
            >(BoltError::PackHeaderSizeOverflow),
    {
        if size <= 15 {
            let r1 = self.out.push_byte(h4 + size as u8);
            proof {
                assert(old(self).out.buf@ + enc_head4(size as int, h4, h8, h16, h32) =~= old(
                    self,
                ).out.buf@.push((h4 + size as int) as u8));
            }
            Ok(())
        } else {
            self.pack_head3(size, h8, h16, h32)
        }
    }

    /// Writes a struct header: field count (tiny nibble, or through the
    /// generic integer encoder for the 8- and 16-bit tiers) followed by the
    /// record's signature byte.  There is no 32-bit struct tier: a larger
    /// field count is a hard failure with nothing written.
    pub fn pack_struct_header(&mut self, size: usize, sign: u8) -> (r: Result<(), BoltError>)
        ensures
            r is Ok <==> size <= 0x7FFF,
            size <= 0x7FFF ==> final(self).out.buf@ == old(self).out.buf@ + enc_struct_head(
                size as int,
                sign,
            ),
            size > 0x7FFF ==> final(self).out.buf@ == old(self).out.buf@ && r == Err::<(), BoltError>(
                BoltError::PackStructHeaderSizeOverflow,
            ),
    {
        if size < 0x10 {
            let r1 = self.out.push_byte(TINY_STRUCT + size as u8);
            let r2 = self.out.push_byte(sign);
            proof {
                assert(old(self).out.buf@ + enc_struct_head(size as int, sign) =~= old(
                    self,
                ).out.buf@.push((TINY_STRUCT + size as int) as u8).push(sign));
            }
            Ok(())
        } else if size <= 0x7F {
            let r1 = self.out.push_byte(STRUCT_8);
            let r2 = self.pack_i8(size as i8);
            let r3 = self.out.push_byte(sign);
            proof {
                assert(old(self).out.buf@ + enc_struct_head(size as int, sign) =~= (old(
                    self,
                ).out.buf@.push(STRUCT_8) + enc_int(size as int)).push(sign));
            }
            Ok(())
        } else if size <= 0x7FFF {
            let r1 = self.out.push_byte(STRUCT_16);
            let r2 = self.pack_i16(size as i16);
            let r3 = self.out.push_byte(sign);
            proof {
                assert(old(self).out.buf@ + enc_struct_head(size as int, sign) =~= (old(
                    self,
                ).out.buf@.push(STRUCT_16) + enc_int(size as int)).push(sign));
            }
            Ok(())
        } else {
            Err(BoltError::PackStructHeaderSizeOverflow)
        }
    }

    /// Encodes the absence of a value as the null marker.
    pub fn pack_null(&mut self) -> (r: Result<(), BoltError>)
        ensures
            r is Ok,
            final(self).out.buf@ == old(self).out.buf@ + seq![NULL],
    {
        let r1 = self.out.push_byte(NULL);
        proof {
            assert(old(self).out.buf@ + seq![NULL] =~= old(self).out.buf@.push(NULL));
        }
        Ok(())
    }

    /// Encodes a boolean as its fixed one-byte marker.
    pub fn pack_bool(&mut self, b: bool) -> (r: Result<(), BoltError>)
        ensures
            r is Ok,
            final(self).out.buf@ == old(self).out.buf@ + seq![if b { TRUE } else { FALSE }],
    {
        let res = if b {
            self.out.push_byte(TRUE)
        } else {
            self.out.push_byte(FALSE)
        };
        proof {
            assert(old(self).out.buf@ + seq![if b { TRUE } else { FALSE }] =~= old(
                self,
            ).out.buf@.push(if b { TRUE } else { FALSE }));
        }
        res
    }

    /// Encodes an 8-bit integer: folded whole into the marker byte when in
    /// `-16..=127`, else an 8-bit payload after its marker.
    pub fn pack_i8(&mut self, n: i8) -> (r: Result<(), BoltError>)
        ensures
            r is Ok,
            final(self).out.buf@ == old(self).out.buf@ + enc_int(n as int),
    {
        proof {
            lemma_p256_vals();
        }
        let rep: u8 = if n >= 0 {
            n as u8
        } else {
            ((n as i16) + 0x100) as u8
        };
        if n >= -16 {
            let r1 = self.out.push_byte(rep);
            proof {
                assert(old(self).out.buf@ + enc_int(n as int) =~= old(self).out.buf@.push(
                    srep(n as int, 1) as u8,
                ));
            }
            Ok(())
        } else {
            let r1 = self.out.push_byte(INT_8);
            let r2 = self.out.push_byte(rep);
            proof {
                assert(old(self).out.buf@ + enc_int(n as int) =~= old(self).out.buf@.push(
                    INT_8,
                ).push(srep(n as int, 1) as u8));
            }
            Ok(())
        }
    }

    /// Encodes a 16-bit integer, re-attempting the 8-bit form first: the
    /// encoder always emits the narrowest sufficient tier.
    pub fn pack_i16(&mut self, n: i16) -> (r: Result<(), BoltError>)
        ensures
            r is Ok,
            final(self).out.buf@ == old(self).out.buf@ + enc_int(n as int),
    {
        proof {
            lemma_p256_vals();
        }
        if -0x80 <= n && n <= 0x7F {
            self.pack_i8(n as i8)
        } else {
            let rep: u64 = if n >= 0 {
                n as u64
            } else {
                (((n as i32) + 0x10000) as u64)
            };
            let r1 = self.out.push_byte(INT_16);
            let r2 = self.push_be(rep, 2);
            proof {
                assert(rep as int == srep(n as int, 2));
                assert(old(self).out.buf@ + enc_int(n as int) =~= old(self).out.buf@.push(INT_16)
                    + be_bytes(srep(n as int, 2), 2));
            }
            Ok(())
        }
    }

    /// Encodes a 32-bit integer, re-attempting the 16-bit form first.
    pub fn pack_i32(&mut self, n: i32) -> (r: Result<(), BoltError>)
        ensures
            r is Ok,
            final(self).out.buf@ == old(self).out.buf@ + enc_int(n as int),
    {
        proof {
            lemma_p256_vals();
        }
        if -0x8000 <= n && n <= 0x7FFF {
            self.pack_i16(n as i16)
        } else {
            let rep: u64 = if n >= 0 {
                n as u64
            } else {
                (((n as i64) + 0x100000000) as u64)
            };
            let r1 = self.out.push_byte(INT_32);
            let r2 = self.push_be(rep, 4);
            proof {
                assert(rep as int == srep(n as int, 4));
                assert(old(self).out.buf@ + enc_int(n as int) =~= old(self).out.buf@.push(INT_32)
                    + be_bytes(srep(n as int, 4), 4));
            }
            Ok(())
        }
    }

    /// Encodes a 64-bit integer, re-attempting the 32-bit form first.
    pub fn pack_i64(&mut self, n: i64) -> (r: Result<(), BoltError>)
        ensures
            r is Ok,
            final(self).out.buf@ == old(self).out.buf@ + enc_int(n as int),
    {
        proof {
            lemma_p256_vals();
        }
        if -0x80000000 <= n && n <= 0x7FFFFFFF {
            self.pack_i32(n as i32)
        } else {
            let rep: u64 = if n >= 0 {
                n as u64
            } else {
                u64::MAX - ((-(n + 1)) as u64)
            };
            let r1 = self.out.push_byte(INT_64);
            let r2 = self.push_be(rep, 8);
            proof {
                assert(rep as int == srep(n as int, 8));
                assert(old(self).out.buf@ + enc_int(n as int) =~= old(self).out.buf@.push(INT_64)
                    + be_bytes(srep(n as int, 8), 8));
            }
            Ok(())
        }
    }

    /// Encodes a 64-bit float's bit pattern: the float marker followed by
    /// the 8-byte big-endian representation.
    pub fn pack_float_bits(&mut self, bits: u64) -> (r: Result<(), BoltError>)
        ensures
            r is Ok,
            final(self).out.buf@ == old(self).out.buf@ + seq![FLOAT_64] + be_bytes(bits as int, 8),
    {
        let r1 = self.out.push_byte(FLOAT_64);
        let r2 = self.push_be(bits, 8);
        proof {
            assert(old(self).out.buf@ + seq![FLOAT_64] + be_bytes(bits as int, 8) =~= old(
                self,
            ).out.buf@.push(FLOAT_64) + be_bytes(bits as int, 8));
        }
        Ok(())
    }

    /// Encodes a string: size header, then the raw UTF-8 bytes.
    pub fn pack_string(&mut self, s: &Vec<u8>) -> (r: Result<(), BoltError>)
        ensures
            r is Ok <==> s@.len() <= 0x7FFFFFFF,
            r is Ok ==> final(self).out.buf@ == old(self).out.buf@ + enc_string(s@),
            r is Err ==> final(self).out.buf@ == old(self).out.buf@ && r == Err::<(), BoltError>(
                BoltError::PackHeaderSizeOverflow,
            ),
    {
        match self.pack_head4(s.len(), TINY_STRING, STRING_8, STRING_16, STRING_32) {
            Ok(_) => {
                let r2 = self.out.push_bytes(s.as_slice());
                proof {
                    assert(old(self).out.buf@ + enc_string(s@) =~= old(self).out.buf@ + enc_head4(
                        s@.len() as int,
                        TINY_STRING,
                        STRING_8,
                        STRING_16,
                        STRING_32,
                    ) + s@);
                }
                Ok(())
            },
            Err(e) => Err(e),
        }
    }

    /// Encodes a byte array: three-tier size header (byte arrays have no
    /// tiny form), then the raw bytes.
    pub fn pack_bytes(&mut self, s: &Vec<u8>) -> (r: Result<(), BoltError>)
        ensures
            r is Ok <==> s@.len() <= 0x7FFFFFFF,
            r is Ok ==> final(self).out.buf@ == old(self).out.buf@ + enc_bytes(s@),
            r is Err ==> final(self).out.buf@ == old(self).out.buf@ && r == Err::<(), BoltError>(
                BoltError::PackHeaderSizeOverflow,
            ),
    {
        match self.pack_head3(s.len(), BYTES_8, BYTES_16, BYTES_32) {
            Ok(_) => {
                let r2 = self.out.push_bytes(s.as_slice());
                proof {
                    assert(old(self).out.buf@ + enc_bytes(s@) =~= old(self).out.buf@ + enc_head3(
                        s@.len() as int,
                        BYTES_8,
                        BYTES_16,
                        BYTES_32,
                    ) + s@);
                }
                Ok(())
            },
            Err(e) => Err(e),
        }
    }

    /// Encodes a map with text keys: size header, then each key and its
    /// value in order.
    pub fn pack_dict(&mut self, ps: &Vec<(Vec<u8>, Value)>) -> (r: Result<(), BoltError>)
        ensures
            r is Ok <==> can_enc_dict(view_pairs(*ps)),
            r is Ok ==> final(self).out.buf@ == old(self).out.buf@ + enc_dict(view_pairs(*ps)),
            r is Err ==> r == Err::<(), BoltError>(BoltError::PackHeaderSizeOverflow),
        decreases ps,
    {
        let pv = Ghost(view_pairs(*ps));
        match self.pack_head4(ps.len(), TINY_MAP, MAP_8, MAP_16, MAP_32) {
            Ok(_) => {
                let ghost base = self.out.buf@;
                let mut k: usize = 0;
                #[verifier::loop_isolation(false)]
                while k < ps.len()
                    invariant
                        k <= ps@.len(),
                        self.out.buf@ == base + enc_pairs(pv@.subrange(0, k as int)),
                        can_enc_pairs(pv@.subrange(0, k as int)),
                    decreases ps@.len() - k,
                {
                    let ghost pre = pv@.subrange(0, k as int);
                    proof {
                        assert(pv@[k as int] == (ps[k as int].0@, view_value(ps[k as int].1)));
                    }
                    match self.pack_string(&ps[k].0) {
                        Ok(_) => {},
                        Err(e) => {
                            proof {
                                if can_enc_pairs(pv@) {
                                    lemma_can_enc_pairs_index(pv@, k as int);
                                }
                            }
                            return Err(e);
                        },
                    }
                    match self.pack_value(&ps[k].1) {
                        Ok(_) => {},
                        Err(e) => {
                            proof {
                                if can_enc_pairs(pv@) {
                                    lemma_can_enc_pairs_index(pv@, k as int);
                                }
                            }
                            return Err(e);
                        },
                    }
                    proof {
                        assert(pv@.subrange(0, (k + 1) as int) =~= pre.push(pv@[k as int]));
                        lemma_enc_pairs_push(pre, pv@[k as int]);
                        assert(base + enc_pairs(pv@.subrange(0, (k + 1) as int)) =~= base
                            + enc_pairs(pre) + enc_string(ps[k as int].0@) + enc_value(
                            view_value(ps[k as int].1),
                        ));
                    }
                    k = k + 1;
                }
                proof {
                    assert(pv@.subrange(0, ps@.len() as int) =~= pv@);
                    assert(old(self).out.buf@ + enc_dict(pv@) =~= base + enc_pairs(pv@));
                }
                Ok(())
            },
            Err(e) => Err(e),
        }
    }

    /// Encodes a list of strings: size header, then each string in order.
    pub fn pack_str_list(&mut self, ls: &Vec<Vec<u8>>) -> (r: Result<(), BoltError>)
        ensures
            r is Ok <==> ls@.len() <= 0x7FFFFFFF && can_enc_strs(view_strs(ls@)),
            r is Ok ==> final(self).out.buf@ == old(self).out.buf@ + enc_str_list(view_strs(ls@)),
            r is Err ==> r == Err::<(), BoltError>(BoltError::PackHeaderSizeOverflow),
    {
        let lv = Ghost(view_strs(ls@));
        match self.pack_head4(ls.len(), TINY_LIST, LIST_8, LIST_16, LIST_32) {
            Ok(_) => {
                let ghost base = self.out.buf@;
                let mut k: usize = 0;
                #[verifier::loop_isolation(false)]
                while k < ls.len()
                    invariant
                        k <= ls@.len(),
                        self.out.buf@ == base + enc_strs(lv@.subrange(0, k as int)),
                        forall|j: int| 0 <= j < k ==> #[trigger] lv@[j].len() <= 0x7FFFFFFF,
                    decreases ls@.len() - k,
                {
                    let ghost pre = lv@.subrange(0, k as int);
                    proof {
                        assert(lv@[k as int] == ls@[k as int]@);
                    }
                    match self.pack_string(&ls[k]) {
                        Ok(_) => {},
                        Err(e) => {
                            proof {
                                assert(!can_enc_strs(lv@)) by {
                                    assert(lv@[k as int].len() > 0x7FFFFFFF);
                                };
                            }
                            return Err(e);
                        },
                    }
                    proof {
                        assert(lv@.subrange(0, (k + 1) as int) =~= pre.push(lv@[k as int]));
                        lemma_enc_strs_push(pre, lv@[k as int]);
                        assert(base + enc_strs(lv@.subrange(0, (k + 1) as int)) =~= base
                            + enc_strs(pre) + enc_string(ls@[k as int]@));
                    }
                    k = k + 1;
                }
                proof {
                    assert(lv@.subrange(0, ls@.len() as int) =~= lv@);
                    assert(old(self).out.buf@ + enc_str_list(lv@) =~= base + enc_strs(lv@));
                }
                Ok(())
            },
            Err(e) => Err(e),
        }
    }

    /// Encodes a list of integers: size header, then each integer in order.
    pub fn pack_i64_list(&mut self, s: &Vec<i64>) -> (r: Result<(), BoltError>)
        ensures
            r is Ok <==> s@.len() <= 0x7FFFFFFF,
            r is Ok ==> final(self).out.buf@ == old(self).out.buf@ + enc_i64_list(s@),
            r is Err ==> final(self).out.buf@ == old(self).out.buf@ && r == Err::<(), BoltError>(
                BoltError::PackHeaderSizeOverflow,
            ),
    {
        match self.pack_head4(s.len(), TINY_LIST, LIST_8, LIST_16, LIST_32) {
            Ok(_) => {
                let ghost base = self.out.buf@;
                let mut k: usize = 0;
                #[verifier::loop_isolation(false)]
                while k < s.len()
                    invariant
                        k <= s@.len(),
                        self.out.buf@ == base + enc_i64s(s@.subrange(0, k as int)),
                    decreases s@.len() - k,
                {
                    let ghost pre = s@.subrange(0, k as int);
                    let r1 = self.pack_i64(s[k]);
                    proof {
                        assert(s@.subrange(0, (k + 1) as int) =~= pre.push(s@[k as int]));
                        lemma_enc_i64s_push(pre, s@[k as int]);
                        assert(base + enc_i64s(s@.subrange(0, (k + 1) as int)) =~= base + enc_i64s(
                            pre,
                        ) + enc_int(s@[k as int] as int));
                    }
                    k = k + 1;
                }
                proof {
                    assert(s@.subrange(0, s@.len() as int) =~= s@);
                    assert(old(self).out.buf@ + enc_i64_list(s@) =~= base + enc_i64s(s@));
                }
                Ok(())
            },
            Err(e) => Err(e),
        }
    }

    /// Encodes a node record: header and signature, then identity, labels
    /// and properties.
    pub fn pack_node(&mut self, n: &Node) -> (r: Result<(), BoltError>)
        ensures
            r is Ok <==> can_enc_node(view_node(*n)),
            r is Ok ==> final(self).out.buf@ == old(self).out.buf@ + enc_node(view_node(*n)),
            r is Err ==> r == Err::<(), BoltError>(BoltError::PackHeaderSizeOverflow),
        decreases n,
    {
        match self.pack_struct_header(3, STRUCT_NODE) {
            Ok(_) => {},
            Err(_) => {
                return Err(BoltError::PackHeaderSizeOverflow);
            },
        }
        let r1 = self.pack_i64(n.id);
        match self.pack_str_list(&n.labels) {
            Ok(_) => {},
            Err(e) => {
                return Err(e);
            },
        }
        match self.pack_dict(&n.properties) {
            Ok(_) => {},
            Err(e) => {
                return Err(e);
            },
        }
        proof {
            assert(old(self).out.buf@ + enc_node(view_node(*n)) =~= old(self).out.buf@
                + enc_struct_head(3, STRUCT_NODE) + enc_int(n.id as int) + enc_str_list(
                view_strs(n.labels@),
            ) + enc_dict(view_pairs(n.properties)));
        }
        Ok(())
    }

    /// Encodes a relationship record: header and signature, then its five
    /// fields in declared order.
    pub fn pack_relationship(&mut self, rel: &Relationship) -> (r: Result<(), BoltError>)
        ensures
            r is Ok <==> can_enc_relationship(view_relationship(*rel)),
            r is Ok ==> final(self).out.buf@ == old(self).out.buf@ + enc_relationship(
                view_relationship(*rel),
            ),
            r is Err ==> r == Err::<(), BoltError>(BoltError::PackHeaderSizeOverflow),
        decreases rel,
    {
        match self.pack_struct_header(5, STRUCT_RELATIONSHIP) {
            Ok(_) => {},
            Err(_) => {
                return Err(BoltError::PackHeaderSizeOverflow);
            },
        }
        let r1 = self.pack_i64(rel.id);
        let r2 = self.pack_i64(rel.start_node_id);
        let r3 = self.pack_i64(rel.end_node_id);
        match self.pack_string(&rel.rel_type) {
            Ok(_) => {},
            Err(e) => {
                return Err(e);
            },
        }
        match self.pack_dict(&rel.properties) {
            Ok(_) => {},
            Err(e) => {
                return Err(e);
            },
        }
        proof {
            assert(old(self).out.buf@ + enc_relationship(view_relationship(*rel)) =~= old(
                self,
            ).out.buf@ + enc_struct_head(5, STRUCT_RELATIONSHIP) + enc_int(rel.id as int) + enc_int(
                rel.start_node_id as int,
            ) + enc_int(rel.end_node_id as int) + enc_string(rel.rel_type@) + enc_dict(
                view_pairs(rel.properties),
            ));
        }
        Ok(())
    }

    /// Encodes an unbound relationship record: header and signature, then
    /// its three fields in declared order.
    pub fn pack_unbound(&mut self, rel: &UnboundRelationship) -> (r: Result<(), BoltError>)
        ensures
            r is Ok <==> can_enc_unbound(view_unbound(*rel)),
            r is Ok ==> final(self).out.buf@ == old(self).out.buf@ + enc_unbound(
                view_unbound(*rel),
            ),
            r is Err ==> r == Err::<(), BoltError>(BoltError::PackHeaderSizeOverflow),
        decreases rel,
    {
        match self.pack_struct_header(3, STRUCT_UNBOUND_RELATIONSHIP) {
            Ok(_) => {},
            Err(_) => {
                return Err(BoltError::PackHeaderSizeOverflow);
            },
        }
        let r1 = self.pack_i64(rel.id);
        match self.pack_string(&rel.rel_type) {
            Ok(_) => {},
            Err(e) => {
                return Err(e);
            },
        }
        match self.pack_dict(&rel.properties) {
            Ok(_) => {},
            Err(e) => {
                return Err(e);
            },
        }
        proof {
            assert(old(self).out.buf@ + enc_unbound(view_unbound(*rel)) =~= old(self).out.buf@
                + enc_struct_head(3, STRUCT_UNBOUND_RELATIONSHIP) + enc_int(rel.id as int)
                + enc_string(rel.rel_type@) + enc_dict(view_pairs(rel.properties)));
        }
        Ok(())
    }

    /// Encodes a list of node records: size header, then each record.
    pub fn pack_node_list(&mut self, xs: &Vec<Node>) -> (r: Result<(), BoltError>)
        ensures
            r is Ok <==> xs@.len() <= 0x7FFFFFFF && can_enc_nodes(view_nodes(*xs)),
            r is Ok ==> final(self).out.buf@ == old(self).out.buf@ + (enc_head4(
                xs@.len() as int,
                TINY_LIST,
                LIST_8,
                LIST_16,
                LIST_32,
            ) + enc_nodes(view_nodes(*xs))),
            r is Err ==> r == Err::<(), BoltError>(BoltError::PackHeaderSizeOverflow),
        decreases xs,
    {
        let xv = Ghost(view_nodes(*xs));
        match self.pack_head4(xs.len(), TINY_LIST, LIST_8, LIST_16, LIST_32) {
            Ok(_) => {
                let ghost base = self.out.buf@;
                let mut k: usize = 0;
                #[verifier::loop_isolation(false)]
                while k < xs.len()
                    invariant
                        k <= xs@.len(),
                        self.out.buf@ == base + enc_nodes(xv@.subrange(0, k as int)),
                        can_enc_nodes(xv@.subrange(0, k as int)),
                    decreases xs@.len() - k,
                {
                    let ghost pre = xv@.subrange(0, k as int);
                    proof {
                        assert(xv@[k as int] == view_node(xs[k as int]));
                    }
                    match self.pack_node(&xs[k]) {
                        Ok(_) => {},
                        Err(e) => {
                            proof {
                                if can_enc_nodes(xv@) {
                                    lemma_can_enc_nodes_index(xv@, k as int);
                                }
                            }
                            return Err(e);
                        },
                    }
                    proof {
                        assert(xv@.subrange(0, (k + 1) as int) =~= pre.push(xv@[k as int]));
                        lemma_enc_nodes_push(pre, xv@[k as int]);
                        assert(base + enc_nodes(xv@.subrange(0, (k + 1) as int)) =~= base
                            + enc_nodes(pre) + enc_node(view_node(xs[k as int])));
                    }
                    k = k + 1;
                }
                proof {
                    assert(xv@.subrange(0, xs@.len() as int) =~= xv@);
                }
                Ok(())
            },
            Err(e) => Err(e),
        }
    }

    /// Encodes a list of unbound relationship records: size header, then
    /// each record.
    pub fn pack_unbound_list(&mut self, xs: &Vec<UnboundRelationship>) -> (r: Result<
        (),
        BoltError,
    >)
        ensures
            r is Ok <==> xs@.len() <= 0x7FFFFFFF && can_enc_unbounds(view_unbounds(*xs)),
            r is Ok ==> final(self).out.buf@ == old(self).out.buf@ + (enc_head4(
                xs@.len() as int,
                TINY_LIST,
                LIST_8,
                LIST_16,
                LIST_32,
            ) + enc_unbounds(view_unbounds(*xs))),
            r is Err ==> r == Err::<(), BoltError>(BoltError::PackHeaderSizeOverflow),
        decreases xs,
    {
        let xv = Ghost(view_unbounds(*xs));
        match self.pack_head4(xs.len(), TINY_LIST, LIST_8, LIST_16, LIST_32) {
            Ok(_) => {
                let ghost base = self.out.buf@;
                let mut k: usize = 0;
                #[verifier::loop_isolation(false)]
                while k < xs.len()
                    invariant
                        k <= xs@.len(),
                        self.out.buf@ == base + enc_unbounds(xv@.subrange(0, k as int)),
                        can_enc_unbounds(xv@.subrange(0, k as int)),
                    decreases xs@.len() - k,
                {
                    let ghost pre = xv@.subrange(0, k as int);
                    proof {
                        assert(xv@[k as int] == view_unbound(xs[k as int]));
                    }
                    match self.pack_unbound(&xs[k]) {
                        Ok(_) => {},
                        Err(e) => {
                            proof {
                                if can_enc_unbounds(xv@) {
                                    lemma_can_enc_unbounds_index(xv@, k as int);
                                }
                            }
                            return Err(e);
                        },
                    }
                    proof {
                        assert(xv@.subrange(0, (k + 1) as int) =~= pre.push(xv@[k as int]));
                        lemma_enc_unbounds_push(pre, xv@[k as int]);
                        assert(base + enc_unbounds(xv@.subrange(0, (k + 1) as int)) =~= base
                            + enc_unbounds(pre) + enc_unbound(view_unbound(xs[k as int])));
                    }
                    k = k + 1;
                }
                proof {
                    assert(xv@.subrange(0, xs@.len() as int) =~= xv@);
                }
                Ok(())
            },
            Err(e) => Err(e),
        }
    }

    /// Encodes a path record: header and signature, then the node list, the
    /// relationship list and the index sequence.
    pub fn pack_path(&mut self, p: &Path) -> (r: Result<(), BoltError>)
        ensures
            r is Ok <==> can_enc_path(view_path(*p)),
            r is Ok ==> final(self).out.buf@ == old(self).out.buf@ + enc_path(view_path(*p)),
            r is Err ==> r == Err::<(), BoltError>(BoltError::PackHeaderSizeOverflow),
        decreases p,
    {
        match self.pack_struct_header(3, STRUCT_PATH) {
            Ok(_) => {},
            Err(_) => {
                return Err(BoltError::PackHeaderSizeOverflow);
            },
        }
        match self.pack_node_list(&p.nodes) {
            Ok(_) => {},
            Err(e) => {
                return Err(e);
            },
        }
        match self.pack_unbound_list(&p.relationships) {
            Ok(_) => {},
            Err(e) => {
                return Err(e);
            },
        }
        match self.pack_i64_list(&p.sequence) {
            Ok(_) => {},
            Err(e) => {
                return Err(e);
            },
        }
        proof {
            let pv = view_path(*p);
            assert(old(self).out.buf@ + enc_path(pv) =~= old(self).out.buf@ + enc_struct_head(
                3,
                STRUCT_PATH,
            ) + (enc_head4(pv.nodes.len() as int, TINY_LIST, LIST_8, LIST_16, LIST_32) + enc_nodes(
                pv.nodes,
            )) + (enc_head4(pv.relationships.len() as int, TINY_LIST, LIST_8, LIST_16, LIST_32)
                + enc_unbounds(pv.relationships)) + enc_i64_list(p.sequence@));
        }
        Ok(())
    }

    /// Encodes any record of the catalogue.
    pub fn pack_struct(&mut self, st: &Struct) -> (r: Result<(), BoltError>)
        ensures
            r is Ok <==> can_enc_record(view_struct(*st)),
            r is Ok ==> final(self).out.buf@ == old(self).out.buf@ + enc_record(view_struct(*st)),
            r is Err ==> r == Err::<(), BoltError>(BoltError::PackHeaderSizeOverflow),
        decreases st,
    {
        match st {
            Struct::Node(n) => self.pack_node(n),
            Struct::Relationship(rel) => self.pack_relationship(rel),
            Struct::Path(p) => self.pack_path(p),
            Struct::UnboundRelationship(rel) => self.pack_unbound(rel),
        }
    }


    /// Encodes a list of values: size header, then each element in order.
    pub fn pack_list(&mut self, xs: &Vec<Value>) -> (r: Result<(), BoltError>)
        ensures
            r is Ok <==> xs@.len() <= 0x7FFFFFFF && can_enc_values(view_values(*xs)),
            r is Ok ==> final(self).out.buf@ == old(self).out.buf@ + (enc_head4(
                xs@.len() as int,
                TINY_LIST,
                LIST_8,
                LIST_16,
                LIST_32,
            ) + enc_values(view_values(*xs))),
            r is Err ==> r == Err::<(), BoltError>(BoltError::PackHeaderSizeOverflow),
        decreases xs,
    {
        let xv = Ghost(view_values(*xs));
        match self.pack_head4(xs.len(), TINY_LIST, LIST_8, LIST_16, LIST_32) {
            Ok(_) => {
                let ghost base = self.out.buf@;
                let mut k: usize = 0;
                #[verifier::loop_isolation(false)]
                while k < xs.len()
                    invariant
                        k <= xs@.len(),
                        self.out.buf@ == base + enc_values(xv@.subrange(0, k as int)),
                        can_enc_values(xv@.subrange(0, k as int)),
                    decreases xs@.len() - k,
                {
                    let ghost pre = xv@.subrange(0, k as int);
                    proof {
                        assert(xv@[k as int] == view_value(xs[k as int]));
                    }
                    match self.pack_value(&xs[k]) {
                        Ok(_) => {},
                        Err(e) => {
                            proof {
                                if can_enc_values(xv@) {
                                    lemma_can_enc_values_index(xv@, k as int);
                                }
                            }
                            return Err(e);
                        },
                    }
                    proof {
                        assert(xv@.subrange(0, (k + 1) as int) =~= pre.push(xv@[k as int]));
                        lemma_enc_values_push(pre, xv@[k as int]);
                        assert(base + enc_values(xv@.subrange(0, (k + 1) as int)) =~= base
                            + enc_values(pre) + enc_value(view_value(xs[k as int])));
                    }
                    k = k + 1;
                }
                proof {
                    assert(xv@.subrange(0, xs@.len() as int) =~= xv@);
                }
                Ok(())
            },
            Err(e) => Err(e),
        }
    }

    /// Encodes a whole value, dispatching on its variant.  Succeeds exactly
    /// when every size in the value fits some header tier, and then appends
    /// exactly the value's canonical encoding.
    pub fn pack_value(&mut self, v: &Value) -> (r: Result<(), BoltError>)
        ensures
            r is Ok <==> can_enc_value(view_value(*v)),
            r is Ok ==> final(self).out.buf@ == old(self).out.buf@ + enc_value(view_value(*v)),
            r is Err ==> r == Err::<(), BoltError>(BoltError::PackHeaderSizeOverflow),
        decreases v,
    {
        match v {
            Value::Null => self.pack_null(),
            Value::Boolean(b) => self.pack_bool(*b),
            Value::Int(n) => self.pack_i64(*n),
            Value::Float(bits) => {
                let r1 = self.pack_float_bits(*bits);
                proof {
                    assert(old(self).out.buf@ + enc_value(view_value(*v)) =~= old(self).out.buf@
                        + seq![FLOAT_64] + be_bytes(*bits as int, 8));
                }
                Ok(())
            },
            Value::String(s) => self.pack_string(s),
            Value::List(xs) => {
                let res = self.pack_list(xs);
                proof {
                    if res is Ok {
                        assert(old(self).out.buf@ + enc_value(view_value(*v)) =~= old(
                            self,
                        ).out.buf@ + (enc_head4(
                            xs@.len() as int,
                            TINY_LIST,
                            LIST_8,
                            LIST_16,
                            LIST_32,
                        ) + enc_values(view_values(*xs))));
                    }
                }
                res
            },
            Value::Dict(ps) => {
                let res = self.pack_dict(ps);
                proof {
                    if res is Ok {
                        assert(old(self).out.buf@ + enc_value(view_value(*v)) =~= old(
                            self,
                        ).out.buf@ + enc_dict(view_pairs(*ps)));
                    }
                }
                res
            },
            Value::Struct(st) => self.pack_struct(st),
        }
    }
}

/// The generic encoding contract: one `pack` per supported value type.
/// Each implementation names the exact bytes a successful `pack` appends
/// and exactly when it succeeds.
pub trait PackValue<T> {
    /// The encoder's byte sink, seen abstractly.
    spec fn sink(&self) -> Seq<u8>;

    /// The bytes that packing `val` appends on success.
    spec fn enc_of(val: &T) -> Seq<u8>;

    /// Exactly when packing `val` succeeds.
    spec fn pack_ok(val: &T) -> bool;

    fn pack(&mut self, val: T) -> (r: Result<(), BoltError>)
        ensures
            r is Ok <==> Self::pack_ok(&val),
            r is Ok ==> final(self).sink() == old(self).sink() + Self::enc_of(&val),
    ;
}

impl PackValue<bool> for Packer {
    open spec fn sink(&self) -> Seq<u8> {
        self.out.buf@
    }

    open spec fn enc_of(val: &bool) -> Seq<u8> {
        seq![if *val { TRUE } else { FALSE }]
    }

    open spec fn pack_ok(val: &bool) -> bool {
        true
    }

    fn pack(&mut self, val: bool) -> (r: Result<(), BoltError>) {
        self.pack_bool(val)
    }
}

impl PackValue<i8> for Packer {
    open spec fn sink(&self) -> Seq<u8> {
        self.out.buf@
    }

    open spec fn enc_of(val: &i8) -> Seq<u8> {
        enc_int(*val as int)
    }

    open spec fn pack_ok(val: &i8) -> bool {
        true
    }

    fn pack(&mut self, val: i8) -> (r: Result<(), BoltError>) {
        self.pack_i8(val)
    }
}

impl PackValue<i16> for Packer {
    open spec fn sink(&self) -> Seq<u8> {
        self.out.buf@
    }

    open spec fn enc_of(val: &i16) -> Seq<u8> {
        enc_int(*val as int)
    }

    open spec fn pack_ok(val: &i16) -> bool {
        true
    }

    fn pack(&mut self, val: i16) -> (r: Result<(), BoltError>) {
        self.pack_i16(val)
    }
}

impl PackValue<i32> for Packer {
    open spec fn sink(&self) -> Seq<u8> {
        self.out.buf@
    }

    open spec fn enc_of(val: &i32) -> Seq<u8> {
        enc_int(*val as int)
    }

    open spec fn pack_ok(val: &i32) -> bool {
        true
    }

    fn pack(&mut self, val: i32) -> (r: Result<(), BoltError>) {
        self.pack_i32(val)
    }
}

impl PackValue<i64> for Packer {
    open spec fn sink(&self) -> Seq<u8> {
        self.out.buf@
    }

    open spec fn enc_of(val: &i64) -> Seq<u8> {
        enc_int(*val as int)
    }

    open spec fn pack_ok(val: &i64) -> bool {
        true
    }

    fn pack(&mut self, val: i64) -> (r: Result<(), BoltError>) {
        self.pack_i64(val)
    }
}

impl PackValue<Vec<u8>> for Packer {
    open spec fn sink(&self) -> Seq<u8> {
        self.out.buf@
    }

    open spec fn enc_of(val: &Vec<u8>) -> Seq<u8> {
        enc_string(val@)
    }

    open spec fn pack_ok(val: &Vec<u8>) -> bool {
        val@.len() <= 0x7FFFFFFF
    }

    fn pack(&mut self, val: Vec<u8>) -> (r: Result<(), BoltError>) {
        self.pack_string(&val)
    }
}

impl PackValue<Value> for Packer {
    open spec fn sink(&self) -> Seq<u8> {
        self.out.buf@
    }

    open spec fn enc_of(val: &Value) -> Seq<u8> {
        enc_value(view_value(*val))
    }

    open spec fn pack_ok(val: &Value) -> bool {
        can_enc_value(view_value(*val))
    }

    fn pack(&mut self, val: Value) -> (r: Result<(), BoltError>) {
        self.pack_value(&val)
    }
}

impl PackValue<Struct> for Packer {
    open spec fn sink(&self) -> Seq<u8> {
        self.out.buf@
    }

    open spec fn enc_of(val: &Struct) -> Seq<u8> {
        enc_record(view_struct(*val))
    }

    open spec fn pack_ok(val: &Struct) -> bool {
        can_enc_record(view_struct(*val))
    }

    fn pack(&mut self, val: Struct) -> (r: Result<(), BoltError>) {
        self.pack_struct(&val)
    }
}

impl PackValue<Option<bool>> for Packer {
    open spec fn sink(&self) -> Seq<u8> {
        self.out.buf@
    }

    open spec fn enc_of(val: &Option<bool>) -> Seq<u8> {
        match val {
            None => seq![NULL],
            Some(x) => seq![if *x { TRUE } else { FALSE }],
        }
    }

    open spec fn pack_ok(val: &Option<bool>) -> bool {
        true
    }

    fn pack(&mut self, val: Option<bool>) -> (r: Result<(), BoltError>) {
        match val {
            None => self.pack_null(),
            Some(x) => self.pack_bool(x),
        }
    }
}

impl PackValue<Option<i64>> for Packer {
    open spec fn sink(&self) -> Seq<u8> {
        self.out.buf@
    }

    open spec fn enc_of(val: &Option<i64>) -> Seq<u8> {
        match val {
            None => seq![NULL],
            Some(x) => enc_int(*x as int),
        }
    }

    open spec fn pack_ok(val: &Option<i64>) -> bool {
        true
    }

    fn pack(&mut self, val: Option<i64>) -> (r: Result<(), BoltError>) {
        match val {
            None => self.pack_null(),
            Some(x) => self.pack_i64(x),
        }
    }
}

impl PackValue<Option<Vec<u8>>> for Packer {
    open spec fn sink(&self) -> Seq<u8> {
        self.out.buf@
    }

    open spec fn enc_of(val: &Option<Vec<u8>>) -> Seq<u8> {
        match val {
            None => seq![NULL],
            Some(x) => enc_string(x@),
        }
    }

    open spec fn pack_ok(val: &Option<Vec<u8>>) -> bool {
        match val {
            None => true,
            Some(x) => x@.len() <= 0x7FFFFFFF,
        }
    }

    fn pack(&mut self, val: Option<Vec<u8>>) -> (r: Result<(), BoltError>) {
        match val {
            None => self.pack_null(),
            Some(x) => self.pack_string(&x),
        }
    }
}

impl PackValue<Option<Value>> for Packer {
    open spec fn sink(&self) -> Seq<u8> {
        self.out.buf@
    }

    open spec fn enc_of(val: &Option<Value>) -> Seq<u8> {
        match val {
            None => seq![NULL],
            Some(x) => enc_value(view_value(*x)),
        }
    }

    open spec fn pack_ok(val: &Option<Value>) -> bool {
        match val {
            None => true,
            Some(x) => can_enc_value(view_value(*x)),
        }
    }

    fn pack(&mut self, val: Option<Value>) -> (r: Result<(), BoltError>) {
        match val {
            None => self.pack_null(),
            Some(x) => self.pack_value(&x),
        }
    }
}

} // verus!
