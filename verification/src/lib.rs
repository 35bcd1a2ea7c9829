//! A verified codec for a compact, self-describing binary wire format.
//!
//! Every value on the wire starts with a single marker byte that carries the
//! value's family and, for small values, its payload or size inline.  Larger
//! values escalate through explicit 8-, 16- and 32-bit size headers.  Lists
//! and maps additionally support a streaming form terminated by a reserved
//! end-of-stream byte, and structured records carry a one-byte signature that
//! identifies their kind within a closed catalogue.
//!
//! The crate is split into the marker taxonomy ([`types`]), the encoder
//! ([`packer`]), the decoder ([`unpacker`]), the mathematical description of
//! the wire format that both sides are verified against ([`wire`]), the
//! generic value model ([`value`]), the graph record catalogue ([`structs`]),
//! the protocol message catalogue ([`messages`]) and the round-trip laws
//! ([`laws`]).

pub mod consts;
pub mod error;
pub mod types;
pub mod wire;
pub mod packer;
pub mod value;
pub mod structs;
pub mod unpacker;
pub mod messages;
pub mod laws;
