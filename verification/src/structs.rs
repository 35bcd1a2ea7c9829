//! The graph record catalogue: the concrete structured record types that
//! ride on the generic struct encoding.
//!
//! Each record has a fixed field arity and a fixed one-byte signature, both
//! carried on the wire.  Text fields hold UTF-8 bytes: the codec moves raw
//! bytes and leaves text interpretation to its callers.
use vstd::prelude::*;
use crate::consts::STRUCT_NODE;
use crate::consts::STRUCT_PATH;
use crate::consts::STRUCT_RELATIONSHIP;
use crate::consts::STRUCT_UNBOUND_RELATIONSHIP;
use crate::consts::LIST_16;
use crate::consts::LIST_32;
use crate::consts::LIST_8;
use crate::consts::MAP_16;
use crate::consts::MAP_32;
use crate::consts::MAP_8;
use crate::consts::TINY_LIST;
use crate::consts::TINY_MAP;
use crate::value::Value;
use crate::value::ValueV;
use crate::consts::END_OF_STREAM;
use crate::value::can_enc_pairs;
use crate::value::dec_pairs;
use crate::value::dec_stream_pairs;
use crate::wire::dec_int;
use crate::wire::dec_list_head;
use crate::wire::dec_map_head;
use crate::wire::dec_string;
use crate::wire::dec_struct_head;
use crate::wire::fits;
use crate::wire::peek_sig;
use crate::value::can_enc_value;
use crate::value::enc_pairs;
use crate::value::enc_string;
use crate::value::view_pairs;
use crate::wire::enc_head4;
use crate::wire::enc_int;
use crate::wire::enc_struct_head;

verus! {

broadcast use vstd::std_specs::vec::axiom_vec_index_decreases;

use vstd::pervasive::arbitrary;

/// A node of the graph: identity, labels and a property map.
#[derive(Debug, PartialEq)]
pub struct Node {
    pub id: i64,
    pub labels: Vec<Vec<u8>>,
    pub properties: Vec<(Vec<u8>, Value)>,
}

/// A directed relationship between two nodes.
#[derive(Debug, PartialEq)]
pub struct Relationship {
    pub id: i64,
    pub start_node_id: i64,
    pub end_node_id: i64,
    pub rel_type: Vec<u8>,
    pub properties: Vec<(Vec<u8>, Value)>,
}

/// An alternating sequence of nodes and relationships.
#[derive(Debug, PartialEq)]
pub struct Path {
    pub nodes: Vec<Node>,
    pub relationships: Vec<UnboundRelationship>,
    pub sequence: Vec<i64>,
}

/// A relationship detached from its endpoints, as it appears inside a path.
#[derive(Debug, PartialEq)]
pub struct UnboundRelationship {
    pub id: i64,
    pub rel_type: Vec<u8>,
    pub properties: Vec<(Vec<u8>, Value)>,
}

/// The closed catalogue of graph records, selected by signature byte.
#[derive(Debug, PartialEq)]
pub enum Struct {
    Node(Node),
    Relationship(Relationship),
    Path(Path),
    UnboundRelationship(UnboundRelationship),
}

// ---------------------------------------------------------------------------
// Mathematical models
// ---------------------------------------------------------------------------

pub struct NodeV {
    pub id: i64,
    pub labels: Seq<Seq<u8>>,
    pub properties: Seq<(Seq<u8>, ValueV)>,
}

pub struct RelationshipV {
    pub id: i64,
    pub start_node_id: i64,
    pub end_node_id: i64,
    pub rel_type: Seq<u8>,
    pub properties: Seq<(Seq<u8>, ValueV)>,
}

pub struct PathV {
    pub nodes: Seq<NodeV>,
    pub relationships: Seq<UnboundRelationshipV>,
    pub sequence: Seq<i64>,
}

pub struct UnboundRelationshipV {
    pub id: i64,
    pub rel_type: Seq<u8>,
    pub properties: Seq<(Seq<u8>, ValueV)>,
}

pub enum StructV {
    Node(NodeV),
    Relationship(RelationshipV),
    Path(PathV),
    UnboundRelationship(UnboundRelationshipV),
}

/// The wire signature of a record.
pub open spec fn sig_of(st: StructV) -> u8 {
    match st {
        StructV::Node(_) => STRUCT_NODE,
        StructV::Relationship(_) => STRUCT_RELATIONSHIP,
        StructV::Path(_) => STRUCT_PATH,
        StructV::UnboundRelationship(_) => STRUCT_UNBOUND_RELATIONSHIP,
    }
}

/// The field arity of a record, as carried on the wire.
pub open spec fn arity_of(st: StructV) -> int {
    match st {
        StructV::Node(_) => 3,
        StructV::Relationship(_) => 5,
        StructV::Path(_) => 3,
        StructV::UnboundRelationship(_) => 3,
    }
}

// ---------------------------------------------------------------------------
// Views
// ---------------------------------------------------------------------------

pub open spec fn view_strs(s: Seq<Vec<u8>>) -> Seq<Seq<u8>> {
    Seq::new(s.len(), |i: int| s[i]@)
}

pub open spec fn view_node(n: Node) -> NodeV
    decreases n,
{
    NodeV { id: n.id, labels: view_strs(n.labels@), properties: view_pairs(n.properties) }
}

pub open spec fn view_relationship(r: Relationship) -> RelationshipV
    decreases r,
{
    RelationshipV {
        id: r.id,
        start_node_id: r.start_node_id,
        end_node_id: r.end_node_id,
        rel_type: r.rel_type@,
        properties: view_pairs(r.properties),
    }
}

pub open spec fn view_unbound(r: UnboundRelationship) -> UnboundRelationshipV
    decreases r,
{
    UnboundRelationshipV {
        id: r.id,
        rel_type: r.rel_type@,
        properties: view_pairs(r.properties),
    }
}

pub open spec fn view_nodes(s: Vec<Node>) -> Seq<NodeV>
    decreases s,
{
    Seq::new(
        s.len() as nat,
        |i: int|
            if 0 <= i < s.len() {
                view_node(s[i])
            } else {
                arbitrary()
            },
    )
}

pub open spec fn view_unbounds(s: Vec<UnboundRelationship>) -> Seq<UnboundRelationshipV>
    decreases s,
{
    Seq::new(
        s.len() as nat,
        |i: int|
            if 0 <= i < s.len() {
                view_unbound(s[i])
            } else {
                arbitrary()
            },
    )
}

pub open spec fn view_path(p: Path) -> PathV
    decreases p,
{
    PathV {
        nodes: view_nodes(p.nodes),
        relationships: view_unbounds(p.relationships),
        sequence: p.sequence@,
    }
}

// ---------------------------------------------------------------------------
// Spec encoding of records
// ---------------------------------------------------------------------------

/// The concatenated encodings of a run of strings.
pub open spec fn enc_strs(ls: Seq<Seq<u8>>) -> Seq<u8>
    decreases ls.len(),
{
    if ls.len() == 0 {
        seq![]
    } else {
        enc_string(ls[0]) + enc_strs(ls.subrange(1, ls.len() as int))
    }
}

/// The encoding of a list of strings.
pub open spec fn enc_str_list(ls: Seq<Seq<u8>>) -> Seq<u8> {
    enc_head4(ls.len() as int, TINY_LIST, LIST_8, LIST_16, LIST_32) + enc_strs(ls)
}

/// The concatenated encodings of a run of integers.
pub open spec fn enc_i64s(s: Seq<i64>) -> Seq<u8>
    decreases s.len(),
{
    if s.len() == 0 {
        seq![]
    } else {
        enc_int(s[0] as int) + enc_i64s(s.subrange(1, s.len() as int))
    }
}

/// The encoding of a list of integers.
pub open spec fn enc_i64_list(s: Seq<i64>) -> Seq<u8> {
    enc_head4(s.len() as int, TINY_LIST, LIST_8, LIST_16, LIST_32) + enc_i64s(s)
}

/// The encoding of a map with text keys.
pub open spec fn enc_dict(ps: Seq<(Seq<u8>, ValueV)>) -> Seq<u8>
    decreases ps, 4int,
{
    enc_head4(ps.len() as int, TINY_MAP, MAP_8, MAP_16, MAP_32) + enc_pairs(ps)
}

/// The encoding of a node record: struct header and signature, then the
/// three fields in declared order.
pub open spec fn enc_node(n: NodeV) -> Seq<u8>
    decreases n, 2int,
{
    enc_struct_head(3, STRUCT_NODE) + enc_int(n.id as int) + enc_str_list(n.labels) + enc_dict(
        n.properties,
    )
}

/// The encoding of a relationship record: header, signature, five fields.
pub open spec fn enc_relationship(r: RelationshipV) -> Seq<u8>
    decreases r, 2int,
{
    enc_struct_head(5, STRUCT_RELATIONSHIP) + enc_int(r.id as int) + enc_int(
        r.start_node_id as int,
    ) + enc_int(r.end_node_id as int) + enc_string(r.rel_type) + enc_dict(r.properties)
}

/// The encoding of an unbound relationship record: header, signature,
/// three fields.
pub open spec fn enc_unbound(r: UnboundRelationshipV) -> Seq<u8>
    decreases r, 2int,
{
    enc_struct_head(3, STRUCT_UNBOUND_RELATIONSHIP) + enc_int(r.id as int) + enc_string(
        r.rel_type,
    ) + enc_dict(r.properties)
}

/// The concatenated encodings of a run of nodes.
pub open spec fn enc_nodes(s: Seq<NodeV>) -> Seq<u8>
    decreases s, 4int,
{
    if s.len() == 0 {
        seq![]
    } else {
        enc_node(s[0]) + enc_nodes(s.subrange(1, s.len() as int))
    }
}

/// The concatenated encodings of a run of unbound relationships.
pub open spec fn enc_unbounds(s: Seq<UnboundRelationshipV>) -> Seq<u8>
    decreases s, 4int,
{
    if s.len() == 0 {
        seq![]
    } else {
        enc_unbound(s[0]) + enc_unbounds(s.subrange(1, s.len() as int))
    }
}

/// The encoding of a path record: header, signature, the node list, the
/// unbound relationship list and the index sequence.
pub open spec fn enc_path(p: PathV) -> Seq<u8>
    decreases p, 2int,
{
    enc_struct_head(3, STRUCT_PATH) + (enc_head4(
        p.nodes.len() as int,
        TINY_LIST,
        LIST_8,
        LIST_16,
        LIST_32,
    ) + enc_nodes(p.nodes)) + (enc_head4(
        p.relationships.len() as int,
        TINY_LIST,
        LIST_8,
        LIST_16,
        LIST_32,
    ) + enc_unbounds(p.relationships)) + enc_i64_list(p.sequence)
}

/// The encoding of any record of the catalogue.
pub open spec fn enc_record(st: StructV) -> Seq<u8>
    decreases st, 3int,
{
    match st {
        StructV::Node(n) => enc_node(n),
        StructV::Relationship(r) => enc_relationship(r),
        StructV::Path(p) => enc_path(p),
        StructV::UnboundRelationship(r) => enc_unbound(r),
    }
}

// ---------------------------------------------------------------------------
// Spec decoding of records and typed lists
// ---------------------------------------------------------------------------

/// Decodes a map with text keys: size header, then pairs (counted or
/// streamed).  A negative size other than the stream sentinel can never
/// match the remaining bytes.
pub open spec fn dec_dict(b: Seq<u8>, i: int) -> Option<(Seq<(Seq<u8>, ValueV)>, int)>
    decreases b.len() - i, 2int,
{
    match dec_map_head(b, i) {
        Some((s, j)) => {
            if s == 0 {
                Some((seq![], j))
            } else if !(i < j <= b.len()) {
                None
            } else if s == -1 {
                dec_stream_pairs(b, j)
            } else if s < 0 {
                None
            } else {
                dec_pairs(b, j, s)
            }
        },
        None => None,
    }
}

/// Decodes exactly `n` strings in a row.
pub open spec fn dec_strs_n(b: Seq<u8>, i: int, n: int) -> Option<(Seq<Seq<u8>>, int)>
    decreases n,
{
    if n <= 0 {
        Some((seq![], i))
    } else {
        match dec_string(b, i) {
            Some((x, j)) => match dec_strs_n(b, j, n - 1) {
                Some((xs, k)) => Some((seq![x] + xs, k)),
                None => None,
            },
            None => None,
        }
    }
}

/// Decodes strings until the end-of-stream byte.
pub open spec fn dec_stream_strs(b: Seq<u8>, i: int) -> Option<(Seq<Seq<u8>>, int)>
    decreases b.len() - i,
{
    if !fits(b, i, 1) {
        None
    } else if b[i] == END_OF_STREAM {
        Some((seq![], i + 1))
    } else {
        match dec_string(b, i) {
            Some((x, j)) => {
                if i < j <= b.len() {
                    match dec_stream_strs(b, j) {
                        Some((xs, k)) => Some((seq![x] + xs, k)),
                        None => None,
                    }
                } else {
                    None
                }
            },
            None => None,
        }
    }
}

/// Decodes a list of strings.
pub open spec fn dec_str_list(b: Seq<u8>, i: int) -> Option<(Seq<Seq<u8>>, int)> {
    match dec_list_head(b, i) {
        Some((s, j)) => {
            if s == 0 {
                Some((seq![], j))
            } else if !(i < j <= b.len()) {
                None
            } else if s == -1 {
                dec_stream_strs(b, j)
            } else if s < 0 {
                None
            } else {
                dec_strs_n(b, j, s)
            }
        },
        None => None,
    }
}

/// Decodes exactly `n` integers in a row.
pub open spec fn dec_i64s_n(b: Seq<u8>, i: int, n: int) -> Option<(Seq<i64>, int)>
    decreases n,
{
    if n <= 0 {
        Some((seq![], i))
    } else {
        match dec_int(b, i) {
            Some((x, j)) => match dec_i64s_n(b, j, n - 1) {
                Some((xs, k)) => Some((seq![x] + xs, k)),
                None => None,
            },
            None => None,
        }
    }
}

/// Decodes integers until the end-of-stream byte.
pub open spec fn dec_stream_i64s(b: Seq<u8>, i: int) -> Option<(Seq<i64>, int)>
    decreases b.len() - i,
{
    if !fits(b, i, 1) {
        None
    } else if b[i] == END_OF_STREAM {
        Some((seq![], i + 1))
    } else {
        match dec_int(b, i) {
            Some((x, j)) => {
                if i < j <= b.len() {
                    match dec_stream_i64s(b, j) {
                        Some((xs, k)) => Some((seq![x] + xs, k)),
                        None => None,
                    }
                } else {
                    None
                }
            },
            None => None,
        }
    }
}

/// Decodes a list of integers.
pub open spec fn dec_i64_list(b: Seq<u8>, i: int) -> Option<(Seq<i64>, int)> {
    match dec_list_head(b, i) {
        Some((s, j)) => {
            if s == 0 {
                Some((seq![], j))
            } else if !(i < j <= b.len()) {
                None
            } else if s == -1 {
                dec_stream_i64s(b, j)
            } else if s < 0 {
                None
            } else {
                dec_i64s_n(b, j, s)
            }
        },
        None => None,
    }
}

/// Decodes a node record: struct header, signature byte (read but not
/// re-checked after dispatch), then the three fields in declared order.
pub open spec fn dec_node(b: Seq<u8>, i: int) -> Option<(NodeV, int)>
    decreases b.len() - i, 1int,
{
    match dec_struct_head(b, i) {
        Some((_arity, j)) => {
            if !fits(b, j, 1) {
                None
            } else {
                match dec_int(b, j + 1) {
                    Some((id, j2)) => match dec_str_list(b, j2) {
                        Some((labels, j3)) => {
                            if i < j3 <= b.len() {
                                match dec_dict(b, j3) {
                                    Some((props, j4)) => Some(
                                        (NodeV { id, labels, properties: props }, j4),
                                    ),
                                    None => None,
                                }
                            } else {
                                None
                            }
                        },
                        None => None,
                    },
                    None => None,
                }
            }
        },
        None => None,
    }
}

/// Decodes a relationship record: struct header, signature, five fields.
pub open spec fn dec_relationship(b: Seq<u8>, i: int) -> Option<(RelationshipV, int)>
    decreases b.len() - i, 1int,
{
    match dec_struct_head(b, i) {
        Some((_arity, j)) => {
            if !fits(b, j, 1) {
                None
            } else {
                match dec_int(b, j + 1) {
                    Some((id, j2)) => match dec_int(b, j2) {
                        Some((start_node_id, j3)) => match dec_int(b, j3) {
                            Some((end_node_id, j4)) => match dec_string(b, j4) {
                                Some((rel_type, j5)) => {
                                    if i < j5 <= b.len() {
                                        match dec_dict(b, j5) {
                                            Some((props, j6)) => Some(
                                                (
                                                    RelationshipV {
                                                        id,
                                                        start_node_id,
                                                        end_node_id,
                                                        rel_type,
                                                        properties: props,
                                                    },
                                                    j6,
                                                ),
                                            ),
                                            None => None,
                                        }
                                    } else {
                                        None
                                    }
                                },
                                None => None,
                            },
                            None => None,
                        },
                        None => None,
                    },
                    None => None,
                }
            }
        },
        None => None,
    }
}

/// Decodes an unbound relationship record: struct header, signature, three
/// fields.
pub open spec fn dec_unbound(b: Seq<u8>, i: int) -> Option<(UnboundRelationshipV, int)>
    decreases b.len() - i, 1int,
{
    match dec_struct_head(b, i) {
        Some((_arity, j)) => {
            if !fits(b, j, 1) {
                None
            } else {
                match dec_int(b, j + 1) {
                    Some((id, j2)) => match dec_string(b, j2) {
                        Some((rel_type, j3)) => {
                            if i < j3 <= b.len() {
                                match dec_dict(b, j3) {
                                    Some((props, j4)) => Some(
                                        (UnboundRelationshipV { id, rel_type, properties: props },
                                        j4),
                                    ),
                                    None => None,
                                }
                            } else {
                                None
                            }
                        },
                        None => None,
                    },
                    None => None,
                }
            }
        },
        None => None,
    }
}

/// Decodes exactly `n` node records in a row.
pub open spec fn dec_nodes_n(b: Seq<u8>, i: int, n: int) -> Option<(Seq<NodeV>, int)>
    decreases b.len() - i, 4int,
{
    if n <= 0 {
        Some((seq![], i))
    } else {
        match dec_node(b, i) {
            Some((x, j)) => {
                if i < j <= b.len() {
                    match dec_nodes_n(b, j, n - 1) {
                        Some((xs, k)) => Some((seq![x] + xs, k)),
                        None => None,
                    }
                } else {
                    None
                }
            },
            None => None,
        }
    }
}

/// Decodes node records until the end-of-stream byte.
pub open spec fn dec_stream_nodes(b: Seq<u8>, i: int) -> Option<(Seq<NodeV>, int)>
    decreases b.len() - i, 4int,
{
    if !fits(b, i, 1) {
        None
    } else if b[i] == END_OF_STREAM {
        Some((seq![], i + 1))
    } else {
        match dec_node(b, i) {
            Some((x, j)) => {
                if i < j <= b.len() {
                    match dec_stream_nodes(b, j) {
                        Some((xs, k)) => Some((seq![x] + xs, k)),
                        None => None,
                    }
                } else {
                    None
                }
            },
            None => None,
        }
    }
}

/// Decodes a list of node records.
pub open spec fn dec_node_list(b: Seq<u8>, i: int) -> Option<(Seq<NodeV>, int)>
    decreases b.len() - i, 5int,
{
    match dec_list_head(b, i) {
        Some((s, j)) => {
            if s == 0 {
                Some((seq![], j))
            } else if !(i < j <= b.len()) {
                None
            } else if s == -1 {
                dec_stream_nodes(b, j)
            } else if s < 0 {
                None
            } else {
                dec_nodes_n(b, j, s)
            }
        },
        None => None,
    }
}

/// Decodes exactly `n` unbound relationship records in a row.
pub open spec fn dec_unbounds_n(b: Seq<u8>, i: int, n: int) -> Option<(
    Seq<UnboundRelationshipV>,
    int,
)>
    decreases b.len() - i, 4int,
{
    if n <= 0 {
        Some((seq![], i))
    } else {
        match dec_unbound(b, i) {
            Some((x, j)) => {
                if i < j <= b.len() {
                    match dec_unbounds_n(b, j, n - 1) {
                        Some((xs, k)) => Some((seq![x] + xs, k)),
                        None => None,
                    }
                } else {
                    None
                }
            },
            None => None,
        }
    }
}

/// Decodes unbound relationship records until the end-of-stream byte.
pub open spec fn dec_stream_unbounds(b: Seq<u8>, i: int) -> Option<(
    Seq<UnboundRelationshipV>,
    int,
)>
    decreases b.len() - i, 4int,
{
    if !fits(b, i, 1) {
        None
    } else if b[i] == END_OF_STREAM {
        Some((seq![], i + 1))
    } else {
        match dec_unbound(b, i) {
            Some((x, j)) => {
                if i < j <= b.len() {
                    match dec_stream_unbounds(b, j) {
                        Some((xs, k)) => Some((seq![x] + xs, k)),
                        None => None,
                    }
                } else {
                    None
                }
            },
            None => None,
        }
    }
}

/// Decodes a list of unbound relationship records.
pub open spec fn dec_unbound_list(b: Seq<u8>, i: int) -> Option<(Seq<UnboundRelationshipV>, int)>
    decreases b.len() - i, 5int,
{
    match dec_list_head(b, i) {
        Some((s, j)) => {
            if s == 0 {
                Some((seq![], j))
            } else if !(i < j <= b.len()) {
                None
            } else if s == -1 {
                dec_stream_unbounds(b, j)
            } else if s < 0 {
                None
            } else {
                dec_unbounds_n(b, j, s)
            }
        },
        None => None,
    }
}

/// Decodes a path record: struct header, signature, then its three list
/// fields in declared order.
pub open spec fn dec_path(b: Seq<u8>, i: int) -> Option<(PathV, int)>
    decreases b.len() - i, 1int,
{
    match dec_struct_head(b, i) {
        Some((_arity, j)) => {
            if !fits(b, j, 1) {
                None
            } else if !(i < j + 1 <= b.len()) {
                None
            } else {
                match dec_node_list(b, j + 1) {
                    Some((nodes, j2)) => {
                        if i < j2 <= b.len() {
                            match dec_unbound_list(b, j2) {
                                Some((rels, j3)) => match dec_i64_list(b, j3) {
                                    Some((sequence, j4)) => Some(
                                        (
                                            PathV {
                                                nodes,
                                                relationships: rels,
                                                sequence,
                                            },
                                            j4,
                                        ),
                                    ),
                                    None => None,
                                },
                                None => None,
                            }
                        } else {
                            None
                        }
                    },
                    None => None,
                }
            }
        },
        None => None,
    }
}

/// Decodes any record of the catalogue: the signature byte is located by
/// lookahead, dispatch selects the record's decoder, and that decoder
/// re-reads from the start of the header.
pub open spec fn dec_record(b: Seq<u8>, i: int) -> Option<(StructV, int)>
    decreases b.len() - i, 2int,
{
    match peek_sig(b, i) {
        Some(sig) => {
            if sig == STRUCT_NODE {
                match dec_node(b, i) {
                    Some((n, j)) => Some((StructV::Node(n), j)),
                    None => None,
                }
            } else if sig == STRUCT_RELATIONSHIP {
                match dec_relationship(b, i) {
                    Some((r, j)) => Some((StructV::Relationship(r), j)),
                    None => None,
                }
            } else if sig == STRUCT_PATH {
                match dec_path(b, i) {
                    Some((p, j)) => Some((StructV::Path(p), j)),
                    None => None,
                }
            } else if sig == STRUCT_UNBOUND_RELATIONSHIP {
                match dec_unbound(b, i) {
                    Some((r, j)) => Some((StructV::UnboundRelationship(r), j)),
                    None => None,
                }
            } else {
                None
            }
        },
        None => None,
    }
}

// ---------------------------------------------------------------------------
// Encodability of records
// ---------------------------------------------------------------------------

pub open spec fn can_enc_strs(ls: Seq<Seq<u8>>) -> bool {
    forall|k: int| 0 <= k < ls.len() ==> #[trigger] ls[k].len() <= 0x7FFFFFFF
}

pub open spec fn can_enc_dict(ps: Seq<(Seq<u8>, ValueV)>) -> bool
    decreases ps, 4int,
{
    ps.len() <= 0x7FFFFFFF && can_enc_pairs(ps)
}

pub open spec fn can_enc_node(n: NodeV) -> bool
    decreases n, 2int,
{
    n.labels.len() <= 0x7FFFFFFF && can_enc_strs(n.labels) && can_enc_dict(n.properties)
}

pub open spec fn can_enc_relationship(r: RelationshipV) -> bool
    decreases r, 2int,
{
    r.rel_type.len() <= 0x7FFFFFFF && can_enc_dict(r.properties)
}

pub open spec fn can_enc_unbound(r: UnboundRelationshipV) -> bool
    decreases r, 2int,
{
    r.rel_type.len() <= 0x7FFFFFFF && can_enc_dict(r.properties)
}

pub open spec fn can_enc_nodes(s: Seq<NodeV>) -> bool
    decreases s, 4int,
{
    if s.len() == 0 {
        true
    } else {
        can_enc_node(s[0]) && can_enc_nodes(s.subrange(1, s.len() as int))
    }
}

pub open spec fn can_enc_unbounds(s: Seq<UnboundRelationshipV>) -> bool
    decreases s, 4int,
{
    if s.len() == 0 {
        true
    } else {
        can_enc_unbound(s[0]) && can_enc_unbounds(s.subrange(1, s.len() as int))
    }
}

pub open spec fn can_enc_path(p: PathV) -> bool
    decreases p, 2int,
{
    p.nodes.len() <= 0x7FFFFFFF && can_enc_nodes(p.nodes) && p.relationships.len() <= 0x7FFFFFFF
        && can_enc_unbounds(p.relationships) && p.sequence.len() <= 0x7FFFFFFF
}

pub open spec fn can_enc_record(st: StructV) -> bool
    decreases st, 3int,
{
    match st {
        StructV::Node(n) => can_enc_node(n),
        StructV::Relationship(r) => can_enc_relationship(r),
        StructV::Path(p) => can_enc_path(p),
        StructV::UnboundRelationship(r) => can_enc_unbound(r),
    }
}

// ---------------------------------------------------------------------------
// Facts about record runs
// ---------------------------------------------------------------------------

pub proof fn lemma_enc_strs_push(s: Seq<Seq<u8>>, x: Seq<u8>)
    ensures
        enc_strs(s.push(x)) == enc_strs(s) + enc_string(x),
    decreases s.len(),
{
    let t = s.push(x);
    if s.len() == 0 {
        assert(t.subrange(1, t.len() as int) =~= s);
        assert(t[0] == x);
        assert(enc_strs(t) =~= enc_strs(s) + enc_string(x));
    } else {
        assert(t[0] == s[0]);
        assert(t.subrange(1, t.len() as int) =~= s.subrange(1, s.len() as int).push(x));
        lemma_enc_strs_push(s.subrange(1, s.len() as int), x);
        assert(enc_strs(t) =~= enc_strs(s) + enc_string(x));
    }
}

pub proof fn lemma_enc_i64s_push(s: Seq<i64>, x: i64)
    ensures
        enc_i64s(s.push(x)) == enc_i64s(s) + enc_int(x as int),
    decreases s.len(),
{
    let t = s.push(x);
    if s.len() == 0 {
        assert(t.subrange(1, t.len() as int) =~= s);
        assert(t[0] == x);
        assert(enc_i64s(t) =~= enc_i64s(s) + enc_int(x as int));
    } else {
        assert(t[0] == s[0]);
        assert(t.subrange(1, t.len() as int) =~= s.subrange(1, s.len() as int).push(x));
        lemma_enc_i64s_push(s.subrange(1, s.len() as int), x);
        assert(enc_i64s(t) =~= enc_i64s(s) + enc_int(x as int));
    }
}

pub proof fn lemma_enc_nodes_push(s: Seq<NodeV>, x: NodeV)
    ensures
        enc_nodes(s.push(x)) == enc_nodes(s) + enc_node(x),
        can_enc_nodes(s.push(x)) == (can_enc_nodes(s) && can_enc_node(x)),
    decreases s.len(),
{
    let t = s.push(x);
    if s.len() == 0 {
        assert(t.subrange(1, t.len() as int) =~= s);
        assert(t[0] == x);
        assert(enc_nodes(t) =~= enc_nodes(s) + enc_node(x));
    } else {
        assert(t[0] == s[0]);
        assert(t.subrange(1, t.len() as int) =~= s.subrange(1, s.len() as int).push(x));
        lemma_enc_nodes_push(s.subrange(1, s.len() as int), x);
        assert(enc_nodes(t) =~= enc_nodes(s) + enc_node(x));
    }
}

pub proof fn lemma_enc_unbounds_push(s: Seq<UnboundRelationshipV>, x: UnboundRelationshipV)
    ensures
        enc_unbounds(s.push(x)) == enc_unbounds(s) + enc_unbound(x),
        can_enc_unbounds(s.push(x)) == (can_enc_unbounds(s) && can_enc_unbound(x)),
    decreases s.len(),
{
    let t = s.push(x);
    if s.len() == 0 {
        assert(t.subrange(1, t.len() as int) =~= s);
        assert(t[0] == x);
        assert(enc_unbounds(t) =~= enc_unbounds(s) + enc_unbound(x));
    } else {
        assert(t[0] == s[0]);
        assert(t.subrange(1, t.len() as int) =~= s.subrange(1, s.len() as int).push(x));
        lemma_enc_unbounds_push(s.subrange(1, s.len() as int), x);
        assert(enc_unbounds(t) =~= enc_unbounds(s) + enc_unbound(x));
    }
}

/// Every node of an encodable run is itself encodable.
pub proof fn lemma_can_enc_nodes_index(s: Seq<NodeV>, k: int)
    requires
        0 <= k < s.len(),
        can_enc_nodes(s),
    ensures
        can_enc_node(s[k]),
    decreases k,
{
    if k > 0 {
        lemma_can_enc_nodes_index(s.subrange(1, s.len() as int), k - 1);
    }
}

/// Every relationship of an encodable run is itself encodable.
pub proof fn lemma_can_enc_unbounds_index(s: Seq<UnboundRelationshipV>, k: int)
    requires
        0 <= k < s.len(),
        can_enc_unbounds(s),
    ensures
        can_enc_unbound(s[k]),
    decreases k,
{
    if k > 0 {
        lemma_can_enc_unbounds_index(s.subrange(1, s.len() as int), k - 1);
    }
}

pub open spec fn view_struct(st: Struct) -> StructV
    decreases st,
{
    match st {
        Struct::Node(n) => StructV::Node(view_node(n)),
        Struct::Relationship(r) => StructV::Relationship(view_relationship(r)),
        Struct::Path(p) => StructV::Path(view_path(p)),
        Struct::UnboundRelationship(r) => StructV::UnboundRelationship(view_unbound(r)),
    }
}

} // verus!
