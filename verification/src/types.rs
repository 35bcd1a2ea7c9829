//! The marker taxonomy: a total classification of every marker byte into
//! its value family.
use vstd::prelude::*;
use crate::consts::BYTES_16;
use crate::consts::BYTES_32;
use crate::consts::BYTES_8;
use crate::consts::END_OF_STREAM;
use crate::consts::FALSE;
use crate::consts::FLOAT_64;
use crate::consts::INT_16;
use crate::consts::INT_32;
use crate::consts::INT_64;
use crate::consts::INT_8;
use crate::consts::LIST_16;
use crate::consts::LIST_32;
use crate::consts::LIST_8;
use crate::consts::LIST_STREAM;
use crate::consts::MAP_16;
use crate::consts::MAP_32;
use crate::consts::MAP_8;
use crate::consts::MAP_STREAM;
use crate::consts::NULL;
use crate::consts::STRING_16;
use crate::consts::STRING_32;
use crate::consts::STRING_8;
use crate::consts::STRUCT_16;
use crate::consts::STRUCT_8;
use crate::consts::TRUE;

verus! {

/// Primitive families that the wire format can represent.  Rich composites
/// and graph records are all carried as [`PackType::Struct`].
#[derive(Debug, Clone, Copy, PartialEq, Eq, Structural)]
pub enum PackType {
    Null,
    Boolean,
    Int,
    Float,
    Bytes,
    String,
    List,
    Dict,
    Struct,
    EndOfStream,
    Reserved,
}

/// The family a marker byte announces.  Total: every byte maps to exactly
/// one family, with unassigned bytes mapping to [`PackType::Reserved`].
///
/// The four tiny families occupy a whole high nibble each (the low nibble
/// carries an inline size), the tiny integers occupy the ranges
/// `0x00..=0x7F` and `0xF0..=0xFF`, and every other known marker is an
/// exact byte value.
pub open spec fn classify(marker: u8) -> PackType {
    if 0x80 <= marker <= 0x8F {
        PackType::String
    } else if 0x90 <= marker <= 0x9F {
        PackType::List
    } else if 0xA0 <= marker <= 0xAF {
        PackType::Dict
    } else if 0xB0 <= marker <= 0xBF {
        PackType::Struct
    } else if marker >= 0xF0 || marker <= 0x7F {
        PackType::Int
    } else if marker == FALSE || marker == TRUE {
        PackType::Boolean
    } else if marker == BYTES_8 || marker == BYTES_16 || marker == BYTES_32 {
        PackType::Bytes
    } else if marker == INT_8 || marker == INT_16 || marker == INT_32 || marker == INT_64 {
        PackType::Int
    } else if marker == FLOAT_64 {
        PackType::Float
    } else if marker == STRING_8 || marker == STRING_16 || marker == STRING_32 {
        PackType::String
    } else if marker == LIST_8 || marker == LIST_16 || marker == LIST_32 || marker
        == LIST_STREAM {
        PackType::List
    } else if marker == MAP_8 || marker == MAP_16 || marker == MAP_32 || marker == MAP_STREAM {
        PackType::Dict
    } else if marker == STRUCT_8 || marker == STRUCT_16 {
        PackType::Struct
    } else if marker == END_OF_STREAM {
        PackType::EndOfStream
    } else if marker == NULL {
        PackType::Null
    } else {
        PackType::Reserved
    }
}

impl PackType {
    /// Classifies the `marker` byte.  This is the single source of truth for
    /// "what kind of value starts here", used both by the decoder and by any
    /// caller that peeks before committing to a decode path.
    pub fn from(marker: u8) -> (r: PackType)
        ensures
            r == classify(marker),
    {
        if 0x80 <= marker && marker <= 0x8F {
            PackType::String
        } else if 0x90 <= marker && marker <= 0x9F {
            PackType::List
        } else if 0xA0 <= marker && marker <= 0xAF {
            PackType::Dict
        } else if 0xB0 <= marker && marker <= 0xBF {
            PackType::Struct
        } else if marker >= 0xF0 || marker <= 0x7F {
            PackType::Int
        } else if marker == FALSE || marker == TRUE {
            PackType::Boolean
        } else if marker == BYTES_8 || marker == BYTES_16 || marker == BYTES_32 {
            PackType::Bytes
        } else if marker == INT_8 || marker == INT_16 || marker == INT_32 || marker == INT_64 {
            PackType::Int
        } else if marker == FLOAT_64 {
            PackType::Float
        } else if marker == STRING_8 || marker == STRING_16 || marker == STRING_32 {
            PackType::String
        } else if marker == LIST_8 || marker == LIST_16 || marker == LIST_32 || marker
            == LIST_STREAM {
            PackType::List
        } else if marker == MAP_8 || marker == MAP_16 || marker == MAP_32 || marker
            == MAP_STREAM {
            PackType::Dict
        } else if marker == STRUCT_8 || marker == STRUCT_16 {
            PackType::Struct
        } else if marker == END_OF_STREAM {
            PackType::EndOfStream
        } else if marker == NULL {
            PackType::Null
        } else {
            PackType::Reserved
        }
    }
}

} // verus!
