//! The protocol message catalogue: the request/response records that ride
//! on the generic struct encoding, selected by signature byte.
//!
//! Like the graph records, each message has a fixed arity and signature;
//! text rides as UTF-8 bytes and maps as ordered key/value pair lists.
use vstd::prelude::*;
use crate::consts::MSG_ACK_FAILURE;
use crate::consts::MSG_DISCARD_ALL;
use crate::consts::MSG_FAILURE;
use crate::consts::MSG_IGNORED;
use crate::consts::MSG_INIT;
use crate::consts::MSG_PULL_ALL;
use crate::consts::MSG_RECORD;
use crate::consts::MSG_RESET;
use crate::consts::MSG_RUN;
use crate::consts::MSG_SUCCESS;
use crate::consts::LIST_16;
use crate::consts::LIST_32;
use crate::consts::LIST_8;
use crate::consts::TINY_LIST;
use crate::error::BoltError;
use crate::packer::Packer;
use crate::structs::can_enc_dict;
use crate::structs::dec_dict;
use crate::structs::enc_dict;
use crate::unpacker::Unpacker;
use crate::value::Value;
use crate::value::ValueV;
use crate::value::can_enc_pairs;
use crate::value::can_enc_values;
use crate::value::dec_elems;
use crate::value::dec_stream_elems;
use crate::value::enc_pairs;
use crate::value::enc_string;
use crate::value::enc_values;
use crate::value::view_pairs;
use crate::value::view_values;
use crate::wire::dec_list_head;
use crate::wire::dec_string;
use crate::wire::dec_struct_head;
use crate::wire::enc_head4;
use crate::wire::enc_struct_head;
use crate::wire::fits;
use crate::wire::peek_sig;

verus! {

/// A client message opening the session.
#[derive(Debug, PartialEq)]
pub struct Init {
    pub client_name: Vec<u8>,
    pub auth_token: Vec<(Vec<u8>, Value)>,
}

/// A client message passing a statement for execution.
#[derive(Debug, PartialEq)]
pub struct Run {
    pub statement: Vec<u8>,
    pub parameters: Vec<(Vec<u8>, Value)>,
}

/// A client message discarding the remainder of the active result stream.
#[derive(Debug, PartialEq)]
pub struct DiscardAll;

/// A client message retrieving the remainder of the active result stream.
#[derive(Debug, PartialEq)]
pub struct PullAll;

/// A client message acknowledging a failure the server has sent.
#[derive(Debug, PartialEq)]
pub struct AckFailure;

/// A client message returning the session to a clean state.
#[derive(Debug, PartialEq)]
pub struct Reset;

/// A server message delivering one record of data.
#[derive(Debug, PartialEq)]
pub struct Record {
    pub fields: Vec<Value>,
}

/// A server message signalling success, with metadata.
#[derive(Debug, PartialEq)]
pub struct Success {
    pub metadata: Vec<(Vec<u8>, Value)>,
}

/// A server message signalling failure, with metadata.
#[derive(Debug, PartialEq)]
pub struct Failure {
    pub metadata: Vec<(Vec<u8>, Value)>,
}

/// A server message signalling that a client message was ignored.
#[derive(Debug, PartialEq)]
pub struct Ignored;

/// The closed catalogue of protocol messages.
#[derive(Debug, PartialEq)]
pub enum Message {
    Init(Init),
    Run(Run),
    DiscardAll(DiscardAll),
    PullAll(PullAll),
    AckFailure(AckFailure),
    Reset(Reset),
    Record(Record),
    Success(Success),
    Failure(Failure),
    Ignored(Ignored),
}

// ---------------------------------------------------------------------------
// Spec encodings
// ---------------------------------------------------------------------------

/// The encoding of a record with no fields: header and signature only.
pub open spec fn enc_unit_record(sign: u8) -> Seq<u8> {
    enc_struct_head(0, sign)
}

pub open spec fn enc_init(name: Seq<u8>, token: Seq<(Seq<u8>, ValueV)>) -> Seq<u8> {
    enc_struct_head(2, MSG_INIT) + enc_string(name) + enc_dict(token)
}

pub open spec fn enc_run(statement: Seq<u8>, parameters: Seq<(Seq<u8>, ValueV)>) -> Seq<u8> {
    enc_struct_head(2, MSG_RUN) + enc_string(statement) + enc_dict(parameters)
}

pub open spec fn enc_record_msg(fields: Seq<ValueV>) -> Seq<u8> {
    enc_struct_head(1, MSG_RECORD) + (enc_head4(
        fields.len() as int,
        TINY_LIST,
        LIST_8,
        LIST_16,
        LIST_32,
    ) + enc_values(fields))
}

pub open spec fn enc_summary(sign: u8, metadata: Seq<(Seq<u8>, ValueV)>) -> Seq<u8> {
    enc_struct_head(1, sign) + enc_dict(metadata)
}

// ---------------------------------------------------------------------------
// Spec decodings
// ---------------------------------------------------------------------------

/// Decodes a record with no fields: header, then the signature byte, which
/// is returned for the caller's dispatch.
pub open spec fn dec_unit_record(b: Seq<u8>, i: int) -> Option<(u8, int)> {
    match dec_struct_head(b, i) {
        Some((_arity, j)) => {
            if fits(b, j, 1) {
                Some((b[j], j + 1))
            } else {
                None
            }
        },
        None => None,
    }
}

/// Decodes the two fields of a session-opening message after its header
/// and signature.
pub open spec fn dec_init(b: Seq<u8>, i: int) -> Option<((Seq<u8>, Seq<(Seq<u8>, ValueV)>), int)> {
    match dec_unit_record(b, i) {
        Some((_sig, j)) => match dec_string(b, j) {
            Some((name, j2)) => {
                if i < j2 <= b.len() {
                    match dec_dict(b, j2) {
                        Some((token, j3)) => Some(((name, token), j3)),
                        None => None,
                    }
                } else {
                    None
                }
            },
            None => None,
        },
        None => None,
    }
}

/// Decodes the single list field of a data record message after its
/// header and signature.
pub open spec fn dec_record_msg(b: Seq<u8>, i: int) -> Option<(Seq<ValueV>, int)> {
    match dec_unit_record(b, i) {
        Some((_sig, j)) => match dec_list_head(b, j) {
            Some((s, j2)) => {
                if s == 0 {
                    Some((seq![], j2))
                } else if !(j < j2 <= b.len()) {
                    None
                } else if s == -1 {
                    dec_stream_elems(b, j2)
                } else if s < 0 {
                    None
                } else {
                    dec_elems(b, j2, s)
                }
            },
            None => None,
        },
        None => None,
    }
}

/// Decodes the single map field of a summary message after its header and
/// signature.
pub open spec fn dec_summary(b: Seq<u8>, i: int) -> Option<(Seq<(Seq<u8>, ValueV)>, int)> {
    match dec_unit_record(b, i) {
        Some((_sig, j)) => {
            if i < j <= b.len() {
                dec_dict(b, j)
            } else {
                None
            }
        },
        None => None,
    }
}

// ---------------------------------------------------------------------------
// Encoders
// ---------------------------------------------------------------------------

impl Packer {
    /// Encodes a record with no fields: header and signature only.
    pub fn pack_unit_record(&mut self, sign: u8) -> (r: Result<(), BoltError>)
        ensures
            r is Ok,
            final(self).out.buf@ == old(self).out.buf@ + enc_unit_record(sign),
    {
        self.pack_struct_header(0, sign)
    }

    /// Encodes a session-opening message.
    pub fn pack_init(&mut self, m: &Init) -> (r: Result<(), BoltError>)
        ensures
            r is Ok <==> m.client_name@.len() <= 0x7FFFFFFF && crate::structs::can_enc_dict(
                view_pairs(m.auth_token),
            ),
            r is Ok ==> final(self).out.buf@ == old(self).out.buf@ + enc_init(
                m.client_name@,
                view_pairs(m.auth_token),
            ),
            r is Err ==> r == Err::<(), BoltError>(BoltError::PackHeaderSizeOverflow),
    {
        match self.pack_struct_header(2, MSG_INIT) {
            Ok(_) => {},
            Err(e) => {
                return Err(e);
            },
        }
        match self.pack_string(&m.client_name) {
            Ok(_) => {},
            Err(e) => {
                return Err(e);
            },
        }
        match self.pack_dict(&m.auth_token) {
            Ok(_) => {},
            Err(e) => {
                return Err(e);
            },
        }
        proof {
            assert(old(self).out.buf@ + enc_init(m.client_name@, view_pairs(m.auth_token)) =~= old(
                self,
            ).out.buf@ + enc_struct_head(2, MSG_INIT) + enc_string(m.client_name@) + enc_dict(
                view_pairs(m.auth_token),
            ));
        }
        Ok(())
    }

    /// Encodes a statement-execution message.
    pub fn pack_run(&mut self, m: &Run) -> (r: Result<(), BoltError>)
        ensures
            r is Ok <==> m.statement@.len() <= 0x7FFFFFFF && crate::structs::can_enc_dict(
                view_pairs(m.parameters),
            ),
            r is Ok ==> final(self).out.buf@ == old(self).out.buf@ + enc_run(
                m.statement@,
                view_pairs(m.parameters),
            ),
            r is Err ==> r == Err::<(), BoltError>(BoltError::PackHeaderSizeOverflow),
    {
        match self.pack_struct_header(2, MSG_RUN) {
            Ok(_) => {},
            Err(e) => {
                return Err(e);
            },
        }
        match self.pack_string(&m.statement) {
            Ok(_) => {},
            Err(e) => {
                return Err(e);
            },
        }
        match self.pack_dict(&m.parameters) {
            Ok(_) => {},
            Err(e) => {
                return Err(e);
            },
        }
        proof {
            assert(old(self).out.buf@ + enc_run(m.statement@, view_pairs(m.parameters)) =~= old(
                self,
            ).out.buf@ + enc_struct_head(2, MSG_RUN) + enc_string(m.statement@) + enc_dict(
                view_pairs(m.parameters),
            ));
        }
        Ok(())
    }

    /// Encodes a data record message: one list field.
    pub fn pack_record_msg(&mut self, m: &Record) -> (r: Result<(), BoltError>)
        ensures
            r is Ok <==> m.fields@.len() <= 0x7FFFFFFF && can_enc_values(view_values(m.fields)),
            r is Ok ==> final(self).out.buf@ == old(self).out.buf@ + enc_record_msg(
                view_values(m.fields),
            ),
            r is Err ==> r == Err::<(), BoltError>(BoltError::PackHeaderSizeOverflow),
    {
        match self.pack_struct_header(1, MSG_RECORD) {
            Ok(_) => {},
            Err(e) => {
                return Err(e);
            },
        }
        match self.pack_list(&m.fields) {
            Ok(_) => {},
            Err(e) => {
                return Err(e);
            },
        }
        proof {
            assert(old(self).out.buf@ + enc_record_msg(view_values(m.fields)) =~= old(
                self,
            ).out.buf@ + enc_struct_head(1, MSG_RECORD) + (enc_head4(
                m.fields@.len() as int,
                TINY_LIST,
                LIST_8,
                LIST_16,
                LIST_32,
            ) + enc_values(view_values(m.fields))));
        }
        Ok(())
    }

    /// Encodes a summary message: one map field after the given signature.
    pub fn pack_summary(&mut self, sign: u8, metadata: &Vec<(Vec<u8>, Value)>) -> (r: Result<
        (),
        BoltError,
    >)
        ensures
            r is Ok <==> crate::structs::can_enc_dict(view_pairs(*metadata)),
            r is Ok ==> final(self).out.buf@ == old(self).out.buf@ + enc_summary(
                sign,
                view_pairs(*metadata),
            ),
            r is Err ==> r == Err::<(), BoltError>(BoltError::PackHeaderSizeOverflow),
    {
        match self.pack_struct_header(1, sign) {
            Ok(_) => {},
            Err(e) => {
                return Err(e);
            },
        }
        match self.pack_dict(metadata) {
            Ok(_) => {},
            Err(e) => {
                return Err(e);
            },
        }
        proof {
            assert(old(self).out.buf@ + enc_summary(sign, view_pairs(*metadata)) =~= old(
                self,
            ).out.buf@ + enc_struct_head(1, sign) + enc_dict(view_pairs(*metadata)));
        }
        Ok(())
    }
}


// ---------------------------------------------------------------------------
// The catalogue's fixed arities and signatures
// ---------------------------------------------------------------------------

impl Init {
    pub fn struct_size() -> (r: usize)
        ensures
            r == 2,
    {
        2
    }

    pub fn struct_sign() -> (r: u8)
        ensures
            r == MSG_INIT,
    {
        MSG_INIT
    }
}

impl Run {
    pub fn struct_size() -> (r: usize)
        ensures
            r == 2,
    {
        2
    }

    pub fn struct_sign() -> (r: u8)
        ensures
            r == MSG_RUN,
    {
        MSG_RUN
    }
}

impl DiscardAll {
    pub fn struct_size() -> (r: usize)
        ensures
            r == 0,
    {
        0
    }

    pub fn struct_sign() -> (r: u8)
        ensures
            r == MSG_DISCARD_ALL,
    {
        MSG_DISCARD_ALL
    }
}

impl PullAll {
    pub fn struct_size() -> (r: usize)
        ensures
            r == 0,
    {
        0
    }

    pub fn struct_sign() -> (r: u8)
        ensures
            r == MSG_PULL_ALL,
    {
        MSG_PULL_ALL
    }
}

impl AckFailure {
    pub fn struct_size() -> (r: usize)
        ensures
            r == 0,
    {
        0
    }

    pub fn struct_sign() -> (r: u8)
        ensures
            r == MSG_ACK_FAILURE,
    {
        MSG_ACK_FAILURE
    }
}

impl Reset {
    pub fn struct_size() -> (r: usize)
        ensures
            r == 0,
    {
        0
    }

    pub fn struct_sign() -> (r: u8)
        ensures
            r == MSG_RESET,
    {
        MSG_RESET
    }
}

impl Record {
    pub fn struct_size() -> (r: usize)
        ensures
            r == 1,
    {
        1
    }

    pub fn struct_sign() -> (r: u8)
        ensures
            r == MSG_RECORD,
    {
        MSG_RECORD
    }
}

impl Success {
    pub fn struct_size() -> (r: usize)
        ensures
            r == 1,
    {
        1
    }

    pub fn struct_sign() -> (r: u8)
        ensures
            r == MSG_SUCCESS,
    {
        MSG_SUCCESS
    }
}

impl Failure {
    pub fn struct_size() -> (r: usize)
        ensures
            r == 1,
    {
        1
    }

    pub fn struct_sign() -> (r: u8)
        ensures
            r == MSG_FAILURE,
    {
        MSG_FAILURE
    }
}

impl Ignored {
    pub fn struct_size() -> (r: usize)
        ensures
            r == 0,
    {
        0
    }

    pub fn struct_sign() -> (r: u8)
        ensures
            r == MSG_IGNORED,
    {
        MSG_IGNORED
    }
}

// ---------------------------------------------------------------------------
// Message-level encode and decode
// ---------------------------------------------------------------------------

/// The mathematical model of a [`Message`].
pub enum MessageV {
    Init(Seq<u8>, Seq<(Seq<u8>, ValueV)>),
    Run(Seq<u8>, Seq<(Seq<u8>, ValueV)>),
    DiscardAll,
    PullAll,
    AckFailure,
    Reset,
    Record(Seq<ValueV>),
    Success(Seq<(Seq<u8>, ValueV)>),
    Failure(Seq<(Seq<u8>, ValueV)>),
    Ignored,
}

pub open spec fn view_message(m: Message) -> MessageV
    decreases m,
{
    match m {
        Message::Init(x) => MessageV::Init(x.client_name@, view_pairs(x.auth_token)),
        Message::Run(x) => MessageV::Run(x.statement@, view_pairs(x.parameters)),
        Message::DiscardAll(_) => MessageV::DiscardAll,
        Message::PullAll(_) => MessageV::PullAll,
        Message::AckFailure(_) => MessageV::AckFailure,
        Message::Reset(_) => MessageV::Reset,
        Message::Record(x) => MessageV::Record(view_values(x.fields)),
        Message::Success(x) => MessageV::Success(view_pairs(x.metadata)),
        Message::Failure(x) => MessageV::Failure(view_pairs(x.metadata)),
        Message::Ignored(_) => MessageV::Ignored,
    }
}

/// The encoding of any message of the catalogue.
pub open spec fn enc_message(m: MessageV) -> Seq<u8> {
    match m {
        MessageV::Init(name, token) => enc_init(name, token),
        MessageV::Run(statement, parameters) => enc_run(statement, parameters),
        MessageV::DiscardAll => enc_unit_record(MSG_DISCARD_ALL),
        MessageV::PullAll => enc_unit_record(MSG_PULL_ALL),
        MessageV::AckFailure => enc_unit_record(MSG_ACK_FAILURE),
        MessageV::Reset => enc_unit_record(MSG_RESET),
        MessageV::Record(fields) => enc_record_msg(fields),
        MessageV::Success(metadata) => enc_summary(MSG_SUCCESS, metadata),
        MessageV::Failure(metadata) => enc_summary(MSG_FAILURE, metadata),
        MessageV::Ignored => enc_unit_record(MSG_IGNORED),
    }
}

/// Exactly the messages every size of which fits some header tier: the
/// encoder fails on nothing else.
pub open spec fn can_enc_message(m: MessageV) -> bool {
    match m {
        MessageV::Init(name, token) => name.len() <= 0x7FFFFFFF && can_enc_dict(token),
        MessageV::Run(statement, parameters) => statement.len() <= 0x7FFFFFFF && can_enc_dict(
            parameters,
        ),
        MessageV::DiscardAll => true,
        MessageV::PullAll => true,
        MessageV::AckFailure => true,
        MessageV::Reset => true,
        MessageV::Record(fields) => fields.len() <= 0x7FFFFFFF && can_enc_values(fields),
        MessageV::Success(metadata) => can_enc_dict(metadata),
        MessageV::Failure(metadata) => can_enc_dict(metadata),
        MessageV::Ignored => true,
    }
}

/// Decodes any message of the catalogue: signature lookahead selects the
/// message's decoder, which re-reads from the start of the header.
pub open spec fn dec_message(b: Seq<u8>, i: int) -> Option<(MessageV, int)> {
    match peek_sig(b, i) {
        Some(sig) => {
            if sig == MSG_INIT {
                match dec_init(b, i) {
                    Some(((name, token), j)) => Some((MessageV::Init(name, token), j)),
                    None => None,
                }
            } else if sig == MSG_RUN {
                match dec_init(b, i) {
                    Some(((statement, parameters), j)) => Some(
                        (MessageV::Run(statement, parameters), j),
                    ),
                    None => None,
                }
            } else if sig == MSG_DISCARD_ALL {
                match dec_unit_record(b, i) {
                    Some((_sig, j)) => Some((MessageV::DiscardAll, j)),
                    None => None,
                }
            } else if sig == MSG_PULL_ALL {
                match dec_unit_record(b, i) {
                    Some((_sig, j)) => Some((MessageV::PullAll, j)),
                    None => None,
                }
            } else if sig == MSG_ACK_FAILURE {
                match dec_unit_record(b, i) {
                    Some((_sig, j)) => Some((MessageV::AckFailure, j)),
                    None => None,
                }
            } else if sig == MSG_RESET {
                match dec_unit_record(b, i) {
                    Some((_sig, j)) => Some((MessageV::Reset, j)),
                    None => None,
                }
            } else if sig == MSG_RECORD {
                match dec_record_msg(b, i) {
                    Some((fields, j)) => Some((MessageV::Record(fields), j)),
                    None => None,
                }
            } else if sig == MSG_SUCCESS {
                match dec_summary(b, i) {
                    Some((metadata, j)) => Some((MessageV::Success(metadata), j)),
                    None => None,
                }
            } else if sig == MSG_FAILURE {
                match dec_summary(b, i) {
                    Some((metadata, j)) => Some((MessageV::Failure(metadata), j)),
                    None => None,
                }
            } else if sig == MSG_IGNORED {
                match dec_unit_record(b, i) {
                    Some((_sig, j)) => Some((MessageV::Ignored, j)),
                    None => None,
                }
            } else {
                None
            }
        },
        None => None,
    }
}

impl Packer {
    /// Encodes any message of the catalogue, dispatching on its variant.
    /// Succeeds exactly when every size in the message fits some header
    /// tier, and then appends exactly the message's encoding.
    pub fn pack_message(&mut self, m: &Message) -> (r: Result<(), BoltError>)
        ensures
            r is Ok <==> can_enc_message(view_message(*m)),
            r is Ok ==> final(self).out.buf@ == old(self).out.buf@ + enc_message(
                view_message(*m),
            ),
            r is Err ==> r == Err::<(), BoltError>(BoltError::PackHeaderSizeOverflow),
    {
        match m {
            Message::Init(x) => self.pack_init(x),
            Message::Run(x) => self.pack_run(x),
            Message::DiscardAll(_) => self.pack_unit_record(MSG_DISCARD_ALL),
            Message::PullAll(_) => self.pack_unit_record(MSG_PULL_ALL),
            Message::AckFailure(_) => self.pack_unit_record(MSG_ACK_FAILURE),
            Message::Reset(_) => self.pack_unit_record(MSG_RESET),
            Message::Record(x) => self.pack_record_msg(x),
            Message::Success(x) => self.pack_summary(MSG_SUCCESS, &x.metadata),
            Message::Failure(x) => self.pack_summary(MSG_FAILURE, &x.metadata),
            Message::Ignored(_) => self.pack_unit_record(MSG_IGNORED),
        }
    }
}

impl Unpacker {
    /// Decodes a record with no fields: header, then the signature byte.
    pub fn unpack_unit_record(&mut self) -> (r: Result<u8, BoltError>)
        ensures
            final(self).input.buf@ == old(self).input.buf@,
            old(self).input.wf() ==> final(self).input.wf(),
            match dec_unit_record(old(self).input.buf@, old(self).input.pos()) {
                Some((sig, j)) => r is Ok && r.unwrap() == sig && final(self).input.pos() == j
                    && old(self).input.pos() < j <= old(self).input.buf@.len(),
                None => r is Err,
            },
            r is Err && !fits(old(self).input.buf@, old(self).input.pos(), 1) ==> r
                == Err::<u8, BoltError>(BoltError::PackInputReadInvalidIndex),
    {
        match self.unpack_struct_header() {
            Ok(_) => {},
            Err(e) => {
                return Err(e);
            },
        }
        self.unpack_struct_signature()
    }

    /// Decodes a session-opening message: header, signature, name, token.
    pub fn unpack_init(&mut self) -> (r: Result<Init, BoltError>)
        ensures
            final(self).input.buf@ == old(self).input.buf@,
            old(self).input.wf() ==> final(self).input.wf(),
            match dec_init(old(self).input.buf@, old(self).input.pos()) {
                Some(((name, token), j)) => r is Ok && r.unwrap().client_name@ == name
                    && view_pairs(r.unwrap().auth_token) == token && final(self).input.pos() == j
                    && old(self).input.pos() < j <= old(self).input.buf@.len(),
                None => r is Err,
            },
            r is Err && !fits(old(self).input.buf@, old(self).input.pos(), 1) ==> r
                == Err::<Init, BoltError>(BoltError::PackInputReadInvalidIndex),
    {
        match self.unpack_unit_record() {
            Ok(_) => {},
            Err(e) => {
                return Err(e);
            },
        }
        let client_name = match self.unpack_string() {
            Ok(x) => x,
            Err(e) => {
                return Err(e);
            },
        };
        let auth_token = match self.unpack_dict() {
            Ok(x) => x,
            Err(e) => {
                return Err(e);
            },
        };
        Ok(Init { client_name, auth_token })
    }

    /// Decodes a statement-execution message: header, signature, statement,
    /// parameters.
    pub fn unpack_run(&mut self) -> (r: Result<Run, BoltError>)
        ensures
            final(self).input.buf@ == old(self).input.buf@,
            old(self).input.wf() ==> final(self).input.wf(),
            match dec_init(old(self).input.buf@, old(self).input.pos()) {
                Some(((statement, parameters), j)) => r is Ok && r.unwrap().statement@ == statement
                    && view_pairs(r.unwrap().parameters) == parameters && final(self).input.pos()
                    == j && old(self).input.pos() < j <= old(self).input.buf@.len(),
                None => r is Err,
            },
            r is Err && !fits(old(self).input.buf@, old(self).input.pos(), 1) ==> r
                == Err::<Run, BoltError>(BoltError::PackInputReadInvalidIndex),
    {
        match self.unpack_unit_record() {
            Ok(_) => {},
            Err(e) => {
                return Err(e);
            },
        }
        let statement = match self.unpack_string() {
            Ok(x) => x,
            Err(e) => {
                return Err(e);
            },
        };
        let parameters = match self.unpack_dict() {
            Ok(x) => x,
            Err(e) => {
                return Err(e);
            },
        };
        Ok(Run { statement, parameters })
    }

    /// Decodes a data record message: header, signature, one list field.
    pub fn unpack_record_msg(&mut self) -> (r: Result<Record, BoltError>)
        ensures
            final(self).input.buf@ == old(self).input.buf@,
            old(self).input.wf() ==> final(self).input.wf(),
            match dec_record_msg(old(self).input.buf@, old(self).input.pos()) {
                Some((fields, j)) => r is Ok && view_values(r.unwrap().fields) == fields && final(self).input.pos() == j && old(self).input.pos() < j <= old(self).input.buf@.len(),
                None => r is Err,
            },
            r is Err && !fits(old(self).input.buf@, old(self).input.pos(), 1) ==> r
                == Err::<Record, BoltError>(BoltError::PackInputReadInvalidIndex),
    {
        match self.unpack_unit_record() {
            Ok(_) => {},
            Err(e) => {
                return Err(e);
            },
        }
        let s = match self.unpack_list_header() {
            Ok(s) => s,
            Err(e) => {
                return Err(e);
            },
        };
        if s == 0 {
            let v: Vec<Value> = Vec::new();
            proof {
                assert(view_values(v) =~= Seq::<ValueV>::empty());
            }
            Ok(Record { fields: v })
        } else if s == crate::consts::UNKNOWN_SIZE {
            match self.unpack_list_stream() {
                Ok(fields) => Ok(Record { fields }),
                Err(e) => Err(e),
            }
        } else if s < 0 {
            Err(BoltError::PackInputReadInvalidIndex)
        } else {
            match self.unpack_list(s as usize) {
                Ok(fields) => Ok(Record { fields }),
                Err(e) => Err(e),
            }
        }
    }

    /// Decodes a summary message's metadata: header, signature, one map.
    pub fn unpack_summary(&mut self) -> (r: Result<Vec<(Vec<u8>, Value)>, BoltError>)
        ensures
            final(self).input.buf@ == old(self).input.buf@,
            old(self).input.wf() ==> final(self).input.wf(),
            match dec_summary(old(self).input.buf@, old(self).input.pos()) {
                Some((metadata, j)) => r is Ok && view_pairs(r.unwrap()) == metadata && final(self).input.pos() == j && old(self).input.pos() < j <= old(self).input.buf@.len(),
                None => r is Err,
            },
            r is Err && !fits(old(self).input.buf@, old(self).input.pos(), 1) ==> r
                == Err::<Vec<(Vec<u8>, Value)>, BoltError>(BoltError::PackInputReadInvalidIndex),
    {
        match self.unpack_unit_record() {
            Ok(_) => {},
            Err(e) => {
                return Err(e);
            },
        }
        self.unpack_dict()
    }

    /// Decodes any message of the catalogue: signature lookahead, then the
    /// matching message decoder.  An unknown signature is unmanaged input.
    pub fn unpack_message(&mut self) -> (r: Result<Message, BoltError>)
        ensures
            final(self).input.buf@ == old(self).input.buf@,
            old(self).input.wf() ==> final(self).input.wf(),
            match dec_message(old(self).input.buf@, old(self).input.pos()) {
                Some((mv, j)) => r is Ok && view_message(r.unwrap()) == mv && final(self).input.pos() == j,
                None => r is Err,
            },
            r is Err && !fits(old(self).input.buf@, old(self).input.pos(), 1) ==> r
                == Err::<Message, BoltError>(BoltError::PackInputPeekInvalidRange),
    {
        let sig = match self.peek_struct_signature() {
            Ok(s) => s,
            Err(e) => {
                return Err(e);
            },
        };
        if sig == MSG_INIT {
            match self.unpack_init() {
                Ok(x) => Ok(Message::Init(x)),
                Err(e) => Err(e),
            }
        } else if sig == MSG_RUN {
            match self.unpack_run() {
                Ok(x) => Ok(Message::Run(x)),
                Err(e) => Err(e),
            }
        } else if sig == MSG_DISCARD_ALL {
            match self.unpack_unit_record() {
                Ok(_) => Ok(Message::DiscardAll(DiscardAll)),
                Err(e) => Err(e),
            }
        } else if sig == MSG_PULL_ALL {
            match self.unpack_unit_record() {
                Ok(_) => Ok(Message::PullAll(PullAll)),
                Err(e) => Err(e),
            }
        } else if sig == MSG_ACK_FAILURE {
            match self.unpack_unit_record() {
                Ok(_) => Ok(Message::AckFailure(AckFailure)),
                Err(e) => Err(e),
            }
        } else if sig == MSG_RESET {
            match self.unpack_unit_record() {
                Ok(_) => Ok(Message::Reset(Reset)),
                Err(e) => Err(e),
            }
        } else if sig == MSG_RECORD {
            match self.unpack_record_msg() {
                Ok(x) => Ok(Message::Record(x)),
                Err(e) => Err(e),
            }
        } else if sig == MSG_SUCCESS {
            match self.unpack_summary() {
                Ok(metadata) => Ok(Message::Success(Success { metadata })),
                Err(e) => Err(e),
            }
        } else if sig == MSG_FAILURE {
            match self.unpack_summary() {
                Ok(metadata) => Ok(Message::Failure(Failure { metadata })),
                Err(e) => Err(e),
            }
        } else if sig == MSG_IGNORED {
            match self.unpack_unit_record() {
                Ok(_) => Ok(Message::Ignored(Ignored)),
                Err(e) => Err(e),
            }
        } else {
            Err(BoltError::Unmanaged)
        }
    }
}

} // verus!
