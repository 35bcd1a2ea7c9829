//! The error taxonomy of the codec.
//!
//! Errors are always returned, never thrown, and each one names the exact
//! operation that failed.  Cursor bounds errors signal "need more bytes"
//! during streaming decode; marker-mismatch errors signal malformed input;
//! the overflow errors signal an encode-time size that no header tier can
//! represent.
use vstd::prelude::*;

verus! {

#[derive(Debug, Clone, Copy, PartialEq, Eq, Structural)]
pub enum BoltError {
    Unmanaged,
    ConnectionFailure,
    WriteHandshakeFailure,
    WriteEndOfRequestFailure,
    WriteRequestHeaderFailure,
    WriteRequestChunkFailure,
    ReadHandshakeFailure,
    PackInputPeekInvalidRange,
    PackInputPeekAtInvalidRange,
    PackInputReadInvalidIndex,
    PackInputReadInvalidSliceRange,
    UnpackInvalidStringSize,
    UnpackInvalidBytesSize,
    UnpackInvalidListSize,
    UnpackInvalidMapSize,
    UnpackInvalidStructSize,
    UnpackInvalidBooleanMarker,
    UnpackInvalidIntMarker,
    PackHeaderSizeOverflow,
    PackStructHeaderSizeOverflow,
}

} // verus!
