//! Message envelopes: a 16-bit message type followed by the encoded
//! payload, plus routing attributes; the acknowledgement replies.

pub mod message_types;

use vstd::prelude::*;
use vstd::slice::*;
use vstd::utf8::*;
use crate::proto::{
    lemma_path_record_roundtrip, lemma_size_reply_roundtrip, lemma_version_reply_roundtrip,
    delimited_at, lemma_varint32_prefix_len, location_list_bytes, parse_locations,
    parse_path_record, parse_size_reply, parse_version_reply, size_list_bytes, skipped_to,
    text_record, version_reply_bytes, DecodeError, LocationView, RepoDataDeleteRequest,
    RepoDataGetSizeRequest, RepoDataSizeReply, RepoPathCreateRequest, RepoPathDeleteRequest,
    SizeView, VersionReply, VersionRequest,
};
use crate::text::{string_from_utf8, utf8_failure};
use crate::wire::{
    lemma_le16_roundtrip, lemma_varint32_roundtrip, le16_bytes, le16_value, push_bytes, push_le16, push_varint, read_varint32, varint32_prefix,
    varint_bytes,
};
use self::message_types::{
    ACK_REPLY, NACK_REPLY, REPO_DATA_DELETE_REQUEST, REPO_DATA_GET_SIZE_REQUEST,
    REPO_DATA_SIZE_REPLY, REPO_PATH_CREATE_REQUEST, REPO_PATH_DELETE_REQUEST, VERSION_REPLY,
    VERSION_REQUEST,
};

verus! {

broadcast use {encode_utf8_valid_utf8, encode_utf8_decode_utf8};

/// Routing attributes a message can carry.
#[derive(Debug, Clone, Copy, PartialEq, Eq, Hash, Structural)]
pub enum MessageAttribute {
    CorrelationId,
    Key,
    MessageType,
}

/// Encodings a message can have.
#[derive(Debug, Clone, Copy, PartialEq, Eq, Structural)]
pub enum MessageType {
    GoogleProtocolBuffer,
}

/// Error codes sent in negative acknowledgements.
#[derive(Debug, Clone, Copy, PartialEq, Eq, Structural)]
pub enum ErrorCode {
    BadRequest,
    InternalError,
    ParseError,
    SecurityViolation,
    DirectoryCreationError,
    BaseRootDeletionError,
    DirectoryDeletionError,
}

/// The number that stands for each error code on the wire.
pub open spec fn error_code_value(c: ErrorCode) -> i32 {
    match c {
        ErrorCode::BadRequest => -1i32,
        ErrorCode::InternalError => -2i32,
        ErrorCode::ParseError => -3i32,
        ErrorCode::SecurityViolation => -4i32,
        ErrorCode::DirectoryCreationError => -5i32,
        ErrorCode::BaseRootDeletionError => -6i32,
        ErrorCode::DirectoryDeletionError => -7i32,
    }
}

impl ErrorCode {
    /// The number that stands for this error code on the wire.
    pub fn code(&self) -> (r: i32)
        ensures
            r == error_code_value(*self),
    {
        match self {
            ErrorCode::BadRequest => -1,
            ErrorCode::InternalError => -2,
            ErrorCode::ParseError => -3,
            ErrorCode::SecurityViolation => -4,
            ErrorCode::DirectoryCreationError => -5,
            ErrorCode::BaseRootDeletionError => -6,
            ErrorCode::DirectoryDeletionError => -7,
        }
    }
}

/// Negative acknowledgement.
#[derive(Debug, Clone)]
pub struct NackReply {
    pub err_code: i32,
    pub err_msg: String,
}

/// Positive acknowledgement; it carries no fields.
#[derive(Debug, Clone, Copy)]
pub struct AckReply;

/// The payload of a message.
#[derive(Debug, Clone)]
pub enum MessagePayload {
    Empty,
    Nack(NackReply),
    Ack(AckReply),
    VersionRequest(VersionRequest),
    VersionReply(VersionReply),
    RepoDataDeleteRequest(RepoDataDeleteRequest),
    RepoDataGetSizeRequest(RepoDataGetSizeRequest),
    RepoPathCreateRequest(RepoPathCreateRequest),
    RepoPathDeleteRequest(RepoPathDeleteRequest),
    RepoDataSizeReply(RepoDataSizeReply),
}

/// What a payload holds, with text as characters.
pub enum PayloadView {
    Empty,
    Nack(i32, Seq<char>),
    Ack,
    VersionRequest,
    VersionReply(VersionReply),
    RepoDataDeleteRequest(Seq<LocationView>),
    RepoDataGetSizeRequest(Seq<LocationView>),
    RepoPathCreateRequest(Seq<char>),
    RepoPathDeleteRequest(Seq<char>),
    RepoDataSizeReply(Seq<SizeView>),
}

impl View for MessagePayload {
    type V = PayloadView;

    open spec fn view(&self) -> PayloadView {
        match self {
            MessagePayload::Empty => PayloadView::Empty,
            MessagePayload::Nack(n) => PayloadView::Nack(n.err_code, n.err_msg@),
            MessagePayload::Ack(_) => PayloadView::Ack,
            MessagePayload::VersionRequest(_) => PayloadView::VersionRequest,
            MessagePayload::VersionReply(v) => PayloadView::VersionReply(*v),
            MessagePayload::RepoDataDeleteRequest(r) => PayloadView::RepoDataDeleteRequest(r@),
            MessagePayload::RepoDataGetSizeRequest(r) => PayloadView::RepoDataGetSizeRequest(r@),
            MessagePayload::RepoPathCreateRequest(r) => PayloadView::RepoPathCreateRequest(r@),
            MessagePayload::RepoPathDeleteRequest(r) => PayloadView::RepoPathDeleteRequest(r@),
            MessagePayload::RepoDataSizeReply(r) => PayloadView::RepoDataSizeReply(r@),
        }
    }
}

/// The attributes of a message: at most one text per attribute.
#[derive(Debug, Clone)]
pub struct AttributeMap {
    correlation_id: Option<String>,
    key: Option<String>,
    message_type: Option<String>,
}

/// The optional text of an attribute as an optional character string.
pub open spec fn opt_view(o: Option<String>) -> Option<Seq<char>> {
    match o {
        Some(s) => Some(s@),
        None => None,
    }
}

/// A map built from the optional text of each attribute.
pub open spec fn attribute_map(c: Option<Seq<char>>, k: Option<Seq<char>>, t: Option<Seq<char>>) -> Map<
    MessageAttribute,
    Seq<char>,
> {
    Map::new(
        |a: MessageAttribute|
            match a {
                MessageAttribute::CorrelationId => c is Some,
                MessageAttribute::Key => k is Some,
                MessageAttribute::MessageType => t is Some,
            },
        |a: MessageAttribute|
            match a {
                MessageAttribute::CorrelationId => c.unwrap(),
                MessageAttribute::Key => k.unwrap(),
                MessageAttribute::MessageType => t.unwrap(),
            },
    )
}

impl View for AttributeMap {
    type V = Map<MessageAttribute, Seq<char>>;

    closed spec fn view(&self) -> Map<MessageAttribute, Seq<char>> {
        attribute_map(opt_view(self.correlation_id), opt_view(self.key), opt_view(self.message_type))
    }
}

impl AttributeMap {
    /// An empty map.
    pub fn new() -> (r: AttributeMap)
        ensures
            r@ == Map::<MessageAttribute, Seq<char>>::empty(),
    {
        let r = AttributeMap { correlation_id: None, key: None, message_type: None };
        assert(r@ =~= Map::<MessageAttribute, Seq<char>>::empty());
        r
    }

    /// Sets the text of `attr`, replacing any earlier one.
    pub fn insert(&mut self, attr: MessageAttribute, value: String)
        ensures
            final(self)@ == old(self)@.insert(attr, value@),
    {
        match attr {
            MessageAttribute::CorrelationId => {
                self.correlation_id = Some(value);
            },
            MessageAttribute::Key => {
                self.key = Some(value);
            },
            MessageAttribute::MessageType => {
                self.message_type = Some(value);
            },
        }
        assert(self@ =~= old(self)@.insert(attr, value@));
    }

    /// The text of `attr`, if it has one.
    pub fn get(&self, attr: MessageAttribute) -> (r: Option<&String>)
        ensures
            r is Some <==> self@.contains_key(attr),
            r matches Some(s) ==> s@ == self@[attr],
    {
        match attr {
            MessageAttribute::CorrelationId => self.correlation_id.as_ref(),
            MessageAttribute::Key => self.key.as_ref(),
            MessageAttribute::MessageType => self.message_type.as_ref(),
        }
    }

    /// Number of attributes that have a text.
    pub fn len(&self) -> (r: usize)
        ensures
            r == self@.dom().len(),
    {
        let mut n: usize = 0;
        if self.correlation_id.is_some() {
            n = n + 1;
        }
        if self.key.is_some() {
            n = n + 1;
        }
        if self.message_type.is_some() {
            n = n + 1;
        }
        proof {
            lemma_attribute_dom_len(opt_view(self.correlation_id), opt_view(self.key), opt_view(
                self.message_type,
            ));
        }
        n
    }
}

proof fn lemma_attribute_dom_len(c: Option<Seq<char>>, k: Option<Seq<char>>, t: Option<Seq<char>>)
    ensures
        attribute_map(c, k, t).dom().len() == (if c is Some {
            1nat
        } else {
            0nat
        }) + (if k is Some {
            1nat
        } else {
            0nat
        }) + (if t is Some {
            1nat
        } else {
            0nat
        }),
{
    let e = Set::<MessageAttribute>::empty();
    let s1 = if c is Some {
        e.insert(MessageAttribute::CorrelationId)
    } else {
        e
    };
    let s2 = if k is Some {
        s1.insert(MessageAttribute::Key)
    } else {
        s1
    };
    let s3 = if t is Some {
        s2.insert(MessageAttribute::MessageType)
    } else {
        s2
    };
    assert(attribute_map(c, k, t).dom() =~= s3);
}

/// A message envelope.
#[derive(Debug, Clone)]
pub struct Message {
    pub correlation_id: Option<String>,
    pub key: Option<String>,
    pub message_type: u16,
    pub payload: MessagePayload,
    pub attributes: AttributeMap,
}

// ---------------------------------------------------------------------------
// Negative acknowledgement encoding.
// ---------------------------------------------------------------------------

/// The zig-zag form of a signed code: non-negative values to even numbers,
/// negative ones to odd numbers.
pub open spec fn zigzag(c: i32) -> nat {
    if c >= 0 {
        (2 * c) as nat
    } else {
        (-2 * c - 1) as nat
    }
}

/// The signed code whose zig-zag form is `v`.
pub open spec fn unzigzag(v: u32) -> i32 {
    if v % 2 == 0 {
        (v / 2) as i32
    } else {
        (-((v as int + 1) / 2)) as i32
    }
}

/// Encoding of a negative acknowledgement: field 1 the zig-zag code as a
/// varint; field 2, only when the text is not empty, its UTF-8 bytes with a
/// varint length.
pub open spec fn nack_bytes(code: i32, msg: Seq<char>) -> Seq<u8> {
    seq![0x08u8] + varint_bytes(zigzag(code)) + if msg.len() > 0 {
        seq![0x12u8] + varint_bytes(encode_utf8(msg).len()) + encode_utf8(msg)
    } else {
        Seq::empty()
    }
}

/// Decoding of the fields of a negative acknowledgement from position `i`
/// on, with the code and text read so far: field 1 a zig-zag varint code,
/// field 2 a length-delimited text, others skipped as length-delimited.
pub open spec fn nack_fields(s: Seq<u8>, i: int, code: i32, msg: Seq<char>) -> Result<
    (i32, Seq<char>),
    DecodeError,
>
    decreases s.len() - i,
{
    if i < 0 || i >= s.len() {
        Ok((code, msg))
    } else {
        proof {
            lemma_varint32_prefix_len(s.subrange(i + 1, s.len() as int));
        }
        if s[i] == 0x08 {
            match varint32_prefix(s.subrange(i + 1, s.len() as int)) {
                None => Err(DecodeError::Malformed),
                Some((v, k)) => nack_fields(s, i + 1 + k, unzigzag(v), msg),
            }
        } else if s[i] == 0x12 {
            match delimited_at(s, i + 1) {
                None => Err(DecodeError::Malformed),
                Some((p, j)) => if valid_utf8(p) {
                    nack_fields(s, j, code, decode_utf8(p))
                } else {
                    Err(DecodeError::InvalidUtf8(utf8_failure(p)))
                },
            }
        } else {
            match skipped_to(s, i + 1) {
                None => Err(DecodeError::Malformed),
                Some(j) => nack_fields(s, j, code, msg),
            }
        }
    }
}

/// Decoding of a negative acknowledgement; absent fields are zero and empty.
pub open spec fn parse_nack(s: Seq<u8>) -> Result<(i32, Seq<char>), DecodeError> {
    nack_fields(s, 0, 0, Seq::empty())
}

fn zigzag_of(c: i32) -> (r: u64)
    ensures
        r == zigzag(c),
{
    if c >= 0 {
        (c as u64) * 2
    } else {
        ((-(c as i64)) * 2 - 1) as u64
    }
}

fn unzigzag_of(v: u32) -> (r: i32)
    ensures
        r == unzigzag(v),
{
    if v % 2 == 0 {
        (v / 2) as i32
    } else {
        (-(((v as i64) + 1) / 2)) as i32
    }
}

impl NackReply {
    /// The message type of negative acknowledgements.
    pub fn get_message_type(&self) -> (r: u16)
        ensures
            r == NACK_REPLY,
    {
        NACK_REPLY
    }

    /// Encodes the reply in protocol-buffer form.
    pub fn serialize(&self) -> (r: Vec<u8>)
        ensures
            r@ == nack_bytes(self.err_code, self.err_msg@),
    {
        let mut data: Vec<u8> = Vec::new();
        data.push(0x08);
        push_varint(&mut data, zigzag_of(self.err_code));
        let ghost head = data@;
        if self.err_msg.as_str().unicode_len() > 0 {
            let bytes = self.err_msg.as_str().as_bytes();
            data.push(0x12);
            push_varint(&mut data, bytes.len() as u64);
            push_bytes(&mut data, bytes);
        }
        assert(data@ =~= nack_bytes(self.err_code, self.err_msg@));
        data
    }

    /// Decodes a reply in the protocol-buffer form `serialize` writes.
    pub fn deserialize(data: &[u8]) -> (r: Result<NackReply, DecodeError>)
        ensures
            match parse_nack(data@) {
                Ok((c, m)) => r matches Ok(n) && n.err_code == c && n.err_msg@ == m,
                Err(e) => r is Err && r->Err_0 == e,
            },
    {
        let mut err_code: i32 = 0;
        let mut err_msg = String::new();
        let mut pos: usize = 0;
        while pos < data.len()
            invariant
                pos <= data@.len(),
                nack_fields(data@, pos as int, err_code, err_msg@) == parse_nack(data@),
            decreases data@.len() - pos,
        {
            let tag = data[pos];
            proof {
                lemma_varint32_prefix_len(data@.subrange(pos + 1, data@.len() as int));
            }
            match read_varint32(data, pos + 1) {
                None => {
                    return Err(DecodeError::Malformed);
                },
                Some((v, next)) => {
                    if tag == 0x08 {
                        err_code = unzigzag_of(v);
                        pos = next;
                    } else if tag == 0x12 {
                        if v as usize > data.len() - next {
                            return Err(DecodeError::Malformed);
                        }
                        let end = next + v as usize;
                        let bytes = slice_to_vec(slice_subrange(data, next, end));
                        match string_from_utf8(bytes) {
                            Err(f) => {
                                return Err(DecodeError::InvalidUtf8(f));
                            },
                            Ok(text) => {
                                err_msg = text;
                                pos = end;
                            },
                        }
                    } else {
                        if v as usize > data.len() - next {
                            pos = data.len();
                        } else {
                            pos = next + v as usize;
                        }
                    }
                },
            }
        }
        Ok(NackReply { err_code, err_msg })
    }
}

impl AckReply {
    /// The message type of positive acknowledgements.
    pub fn get_message_type(&self) -> (r: u16)
        ensures
            r == ACK_REPLY,
    {
        ACK_REPLY
    }

    /// Encodes the reply: it has no fields, so the encoding is empty.
    pub fn serialize(&self) -> (r: Vec<u8>)
        ensures
            r@ == Seq::<u8>::empty(),
    {
        Vec::new()
    }

    /// Decodes the reply; any bytes are accepted.
    pub fn deserialize(_data: &[u8]) -> (r: Result<AckReply, DecodeError>)
        ensures
            r is Ok,
    {
        Ok(AckReply)
    }
}

// ---------------------------------------------------------------------------
// Envelopes.
// ---------------------------------------------------------------------------

/// The encoding of a payload, as each payload type's `serialize` writes it.
pub open spec fn payload_bytes(p: PayloadView) -> Seq<u8> {
    match p {
        PayloadView::Empty => Seq::empty(),
        PayloadView::Nack(c, m) => nack_bytes(c, m),
        PayloadView::Ack => Seq::empty(),
        PayloadView::VersionRequest => Seq::empty(),
        PayloadView::VersionReply(v) => version_reply_bytes(v),
        PayloadView::RepoDataDeleteRequest(ls) => location_list_bytes(ls),
        PayloadView::RepoDataGetSizeRequest(ls) => location_list_bytes(ls),
        PayloadView::RepoPathCreateRequest(p) => text_record(p),
        PayloadView::RepoPathDeleteRequest(p) => text_record(p),
        PayloadView::RepoDataSizeReply(rs) => size_list_bytes(rs),
    }
}

/// An envelope: the message type as 16 little-endian bits, then the payload.
pub open spec fn message_bytes(message_type: u16, p: PayloadView) -> Seq<u8> {
    le16_bytes(message_type) + payload_bytes(p)
}

/// Decoding of the payload of a message of type `t` from `body`.
pub open spec fn parse_payload(t: u16, body: Seq<u8>) -> Result<PayloadView, DecodeError> {
    if t == VERSION_REQUEST {
        Ok(PayloadView::VersionRequest)
    } else if t == VERSION_REPLY {
        match parse_version_reply(body) {
            Ok(v) => Ok(PayloadView::VersionReply(v)),
            Err(e) => Err(e),
        }
    } else if t == REPO_DATA_DELETE_REQUEST {
        match parse_locations(body) {
            Ok(ls) => Ok(PayloadView::RepoDataDeleteRequest(ls)),
            Err(e) => Err(e),
        }
    } else if t == REPO_DATA_GET_SIZE_REQUEST {
        match parse_locations(body) {
            Ok(ls) => Ok(PayloadView::RepoDataGetSizeRequest(ls)),
            Err(e) => Err(e),
        }
    } else if t == REPO_PATH_CREATE_REQUEST {
        match parse_path_record(body) {
            Ok(p) => Ok(PayloadView::RepoPathCreateRequest(p)),
            Err(e) => Err(e),
        }
    } else if t == REPO_PATH_DELETE_REQUEST {
        match parse_path_record(body) {
            Ok(p) => Ok(PayloadView::RepoPathDeleteRequest(p)),
            Err(e) => Err(e),
        }
    } else if t == REPO_DATA_SIZE_REPLY {
        match parse_size_reply(body) {
            Ok(rs) => Ok(PayloadView::RepoDataSizeReply(rs)),
            Err(e) => Err(e),
        }
    } else if t == ACK_REPLY {
        Ok(PayloadView::Ack)
    } else if t == NACK_REPLY {
        match parse_nack(body) {
            Ok((c, m)) => Ok(PayloadView::Nack(c, m)),
            Err(e) => Err(e),
        }
    } else {
        Err(DecodeError::UnknownMessageType(t))
    }
}

/// Decoding of an envelope: its type and payload.
pub open spec fn parse_message(s: Seq<u8>) -> Result<(u16, PayloadView), DecodeError> {
    if s.len() < 2 {
        Err(DecodeError::TooShort)
    } else {
        match parse_payload(le16_value(s), s.skip(2)) {
            Ok(p) => Ok((le16_value(s), p)),
            Err(e) => Err(e),
        }
    }
}

impl Message {
    /// A message of the given type and payload, without correlation id, key
    /// or attributes.
    pub fn new(message_type: u16, payload: MessagePayload) -> (r: Message)
        ensures
            r.correlation_id is None,
            r.key is None,
            r.message_type == message_type,
            r.payload == payload,
            r.attributes@ == Map::<MessageAttribute, Seq<char>>::empty(),
    {
        Message {
            correlation_id: None,
            key: None,
            message_type,
            payload,
            attributes: AttributeMap::new(),
        }
    }

    /// Sets the correlation id, also as the `CorrelationId` attribute.
    pub fn set_correlation_id(&mut self, id: String)
        ensures
            final(self).correlation_id == Some(id),
            final(self).attributes@ == old(self).attributes@.insert(
                MessageAttribute::CorrelationId,
                id@,
            ),
            final(self).key == old(self).key,
            final(self).message_type == old(self).message_type,
            final(self).payload == old(self).payload,
    {
        self.correlation_id = Some(id.clone());
        self.attributes.insert(MessageAttribute::CorrelationId, id);
    }

    /// Sets the key, also as the `Key` attribute.
    pub fn set_key(&mut self, key: String)
        ensures
            final(self).key == Some(key),
            final(self).attributes@ == old(self).attributes@.insert(MessageAttribute::Key, key@),
            final(self).correlation_id == old(self).correlation_id,
            final(self).message_type == old(self).message_type,
            final(self).payload == old(self).payload,
    {
        self.key = Some(key.clone());
        self.attributes.insert(MessageAttribute::Key, key);
    }

    /// The correlation id, if set.
    pub fn get_correlation_id(&self) -> (r: Option<&String>)
        ensures
            r is Some <==> self.correlation_id is Some,
            r matches Some(s) ==> *s == self.correlation_id.unwrap(),
    {
        self.correlation_id.as_ref()
    }

    /// The key, if set.
    pub fn get_key(&self) -> (r: Option<&String>)
        ensures
            r is Some <==> self.key is Some,
            r matches Some(s) ==> *s == self.key.unwrap(),
    {
        self.key.as_ref()
    }

    /// The message type.
    pub fn get_message_type(&self) -> (r: u16)
        ensures
            r == self.message_type,
    {
        self.message_type
    }

    /// The payload.
    pub fn get_payload(&self) -> (r: &MessagePayload)
        ensures
            *r == self.payload,
    {
        &self.payload
    }

    /// The payload, for changing it in place.
    pub fn get_payload_mut(&mut self) -> (r: &mut MessagePayload)
        ensures
            *r == old(self).payload,
            final(self).payload == *final(r),
            final(self).correlation_id == old(self).correlation_id,
            final(self).key == old(self).key,
            final(self).message_type == old(self).message_type,
            final(self).attributes == old(self).attributes,
    {
        &mut self.payload
    }

    /// Decodes an envelope: the type from the first two bytes, the payload
    /// from the rest according to the type.
    pub fn deserialize(data: &[u8]) -> (r: Result<Message, DecodeError>)
        ensures
            match parse_message(data@) {
                Ok((t, p)) => r matches Ok(m) && m.message_type == t && m.payload@ == p
                    && m.correlation_id is None && m.key is None && m.attributes@ == Map::<
                    MessageAttribute,
                    Seq<char>,
                >::empty(),
                Err(e) => r is Err && r->Err_0 == e,
            },
    {
        if data.len() < 2 {
            return Err(DecodeError::TooShort);
        }
        let msg_type: u16 = (data[0] as u16) + 256 * (data[1] as u16);
        let body = slice_subrange(data, 2, data.len());
        assert(body@ =~= data@.skip(2));
        let payload = if msg_type == VERSION_REQUEST {
            match VersionRequest::deserialize(body) {
                Ok(v) => MessagePayload::VersionRequest(v),
                Err(e) => {
                    return Err(e);
                },
            }
        } else if msg_type == VERSION_REPLY {
            match VersionReply::deserialize(body) {
                Ok(v) => MessagePayload::VersionReply(v),
                Err(e) => {
                    return Err(e);
                },
            }
        } else if msg_type == REPO_DATA_DELETE_REQUEST {
            match RepoDataDeleteRequest::deserialize(body) {
                Ok(v) => MessagePayload::RepoDataDeleteRequest(v),
                Err(e) => {
                    return Err(e);
                },
            }
        } else if msg_type == REPO_DATA_GET_SIZE_REQUEST {
            match RepoDataGetSizeRequest::deserialize(body) {
                Ok(v) => MessagePayload::RepoDataGetSizeRequest(v),
                Err(e) => {
                    return Err(e);
                },
            }
        } else if msg_type == REPO_PATH_CREATE_REQUEST {
            match RepoPathCreateRequest::deserialize(body) {
                Ok(v) => MessagePayload::RepoPathCreateRequest(v),
                Err(e) => {
                    return Err(e);
                },
            }
        } else if msg_type == REPO_PATH_DELETE_REQUEST {
            match RepoPathDeleteRequest::deserialize(body) {
                Ok(v) => MessagePayload::RepoPathDeleteRequest(v),
                Err(e) => {
                    return Err(e);
                },
            }
        } else if msg_type == REPO_DATA_SIZE_REPLY {
            match RepoDataSizeReply::deserialize(body) {
                Ok(v) => MessagePayload::RepoDataSizeReply(v),
                Err(e) => {
                    return Err(e);
                },
            }
        } else if msg_type == ACK_REPLY {
            match AckReply::deserialize(body) {
                Ok(v) => MessagePayload::Ack(v),
                Err(e) => {
                    return Err(e);
                },
            }
        } else if msg_type == NACK_REPLY {
            match NackReply::deserialize(body) {
                Ok(v) => MessagePayload::Nack(v),
                Err(e) => {
                    return Err(e);
                },
            }
        } else {
            return Err(DecodeError::UnknownMessageType(msg_type));
        };
        Ok(Message::new(msg_type, payload))
    }

    /// Encodes the envelope: the message type, then the payload.
    pub fn serialize(&self) -> (r: Vec<u8>)
        ensures
            r@ == message_bytes(self.message_type, self.payload@),
    {
        let mut data: Vec<u8> = Vec::new();
        push_le16(&mut data, self.message_type);
        let payload_data = match &self.payload {
            MessagePayload::Empty => Vec::new(),
            MessagePayload::Nack(nack) => nack.serialize(),
            MessagePayload::Ack(ack) => ack.serialize(),
            MessagePayload::VersionRequest(req) => req.serialize(),
            MessagePayload::VersionReply(rep) => rep.serialize(),
            MessagePayload::RepoDataDeleteRequest(req) => req.serialize(),
            MessagePayload::RepoDataGetSizeRequest(req) => req.serialize(),
            MessagePayload::RepoPathCreateRequest(req) => req.serialize(),
            MessagePayload::RepoPathDeleteRequest(req) => req.serialize(),
            MessagePayload::RepoDataSizeReply(rep) => rep.serialize(),
        };
        push_bytes(&mut data, payload_data.as_slice());
        data
    }
}

/// Builds messages.
pub struct MessageFactory;

impl MessageFactory {
    pub fn new() -> (r: MessageFactory) {
        MessageFactory
    }

    /// A placeholder message: type 0, empty payload, whatever encoding is
    /// asked for.
    pub fn create(&self, _message_type: MessageType) -> (r: Message)
        ensures
            r.message_type == 0,
            r.payload@ == PayloadView::Empty,
            r.correlation_id is None,
            r.key is None,
            r.attributes@ == Map::<MessageAttribute, Seq<char>>::empty(),
    {
        Message::new(0, MessagePayload::Empty)
    }

    /// An empty response (type 0, empty payload) that carries the
    /// correlation id of `request`, when it has one.
    pub fn create_response_envelope(&self, request: &Message) -> (r: Message)
        ensures
            r.message_type == 0,
            r.payload@ == PayloadView::Empty,
            r.key is None,
            r.correlation_id == request.correlation_id,
            r.attributes@ == match request.correlation_id {
                Some(id) => Map::<MessageAttribute, Seq<char>>::empty().insert(
                    MessageAttribute::CorrelationId,
                    id@,
                ),
                None => Map::<MessageAttribute, Seq<char>>::empty(),
            },
    {
        let mut response = Message::new(0, MessagePayload::Empty);
        if let Some(correlation_id) = request.get_correlation_id() {
            response.set_correlation_id(correlation_id.clone());
        }
        response
    }
}

// ---------------------------------------------------------------------------
// Laws of the envelope and acknowledgement encodings.
// ---------------------------------------------------------------------------

/// Decoding the encoding of a negative acknowledgement gives its code and
/// text back, for texts shorter than 2^32 bytes.
pub proof fn lemma_nack_roundtrip(code: i32, msg: Seq<char>)
    requires
        encode_utf8(msg).len() < 0x1_0000_0000,
    ensures
        parse_nack(nack_bytes(code, msg)) == Ok::<(i32, Seq<char>), DecodeError>((code, msg)),
{
    let z = zigzag(code);
    let zb = varint_bytes(z);
    let e = encode_utf8(msg);
    let tail = if msg.len() > 0 {
        seq![0x12u8] + varint_bytes(e.len()) + e
    } else {
        Seq::<u8>::empty()
    };
    let s = nack_bytes(code, msg);
    assert(s =~= seq![0x08u8] + (zb + tail));
    assert(s.subrange(1, s.len() as int) =~= zb + tail);
    assert(z < 0x1_0000_0000);
    lemma_varint32_roundtrip(z as u32, tail);
    assert(unzigzag(z as u32) == code);
    let i: int = 1 + zb.len() as int;
    if msg.len() > 0 {
        assert(s[i] == 0x12);
        let lb = varint_bytes(e.len());
        assert(s.subrange(i + 1, s.len() as int) =~= lb + e);
        lemma_varint32_roundtrip(e.len() as u32, e);
        assert(s.subrange(i + 1 + lb.len() as int, i + 1 + lb.len() + e.len()) =~= e);
        assert(decode_utf8(e) == msg);
        assert(delimited_at(s, i + 1) == Some((e, s.len() as int)));
        assert(nack_fields(s, i, code, Seq::empty()) == nack_fields(s, s.len() as int, code, msg));
        assert(nack_fields(s, 0, 0, Seq::empty()) == nack_fields(s, i, code, Seq::empty()));
        assert(nack_fields(s, s.len() as int, code, msg) == Ok::<(i32, Seq<char>), DecodeError>(
            (code, msg),
        ));
    } else {
        assert(msg =~= Seq::<char>::empty());
        assert(i == s.len());
        assert(nack_fields(s, 0, 0, Seq::empty()) == nack_fields(s, i, code, Seq::empty()));
    }
}

/// The message type that goes with each kind of payload; the empty payload
/// has none.
pub open spec fn payload_type(p: PayloadView) -> Option<u16> {
    match p {
        PayloadView::Empty => None,
        PayloadView::Nack(_, _) => Some(NACK_REPLY),
        PayloadView::Ack => Some(ACK_REPLY),
        PayloadView::VersionRequest => Some(VERSION_REQUEST),
        PayloadView::VersionReply(_) => Some(VERSION_REPLY),
        PayloadView::RepoDataDeleteRequest(_) => Some(REPO_DATA_DELETE_REQUEST),
        PayloadView::RepoDataGetSizeRequest(_) => Some(REPO_DATA_GET_SIZE_REQUEST),
        PayloadView::RepoPathCreateRequest(_) => Some(REPO_PATH_CREATE_REQUEST),
        PayloadView::RepoPathDeleteRequest(_) => Some(REPO_PATH_DELETE_REQUEST),
        PayloadView::RepoDataSizeReply(_) => Some(REPO_DATA_SIZE_REPLY),
    }
}

/// Payloads whose encoding decodes back under their own message type: all
/// but the empty payload and the location-list requests (those are written
/// in the compact framing but read as protocol buffers), with texts and
/// lists small enough for 32-bit lengths.
pub open spec fn payload_round_trips(p: PayloadView) -> bool {
    match p {
        PayloadView::Empty => false,
        PayloadView::Nack(_, m) => encode_utf8(m).len() < 0x1_0000_0000,
        PayloadView::Ack => true,
        PayloadView::VersionRequest => true,
        PayloadView::VersionReply(_) => true,
        PayloadView::RepoDataDeleteRequest(_) => false,
        PayloadView::RepoDataGetSizeRequest(_) => false,
        PayloadView::RepoPathCreateRequest(p) => encode_utf8(p).len() < 0x1_0000_0000,
        PayloadView::RepoPathDeleteRequest(p) => encode_utf8(p).len() < 0x1_0000_0000,
        PayloadView::RepoDataSizeReply(rs) => rs.len() < 0x1_0000_0000 && forall|k: int|
            0 <= k < rs.len() ==> encode_utf8(#[trigger] rs[k].0).len() < 0x1_0000_0000,
    }
}

/// A message whose type is the one of its payload decodes back to that type
/// and payload.
pub proof fn lemma_message_roundtrip(p: PayloadView)
    requires
        payload_round_trips(p),
    ensures
        parse_message(message_bytes(payload_type(p).unwrap(), p)) == Ok::<
            (u16, PayloadView),
            DecodeError,
        >((payload_type(p).unwrap(), p)),
{
    let t = payload_type(p).unwrap();
    let s = message_bytes(t, p);
    lemma_le16_roundtrip(t, payload_bytes(p));
    assert(s.skip(2) =~= payload_bytes(p));
    match p {
        PayloadView::Nack(c, m) => {
            lemma_nack_roundtrip(c, m);
        },
        PayloadView::VersionReply(v) => {
            lemma_version_reply_roundtrip(v);
        },
        PayloadView::RepoPathCreateRequest(q) => {
            assert(payload_bytes(p) + Seq::<u8>::empty() =~= payload_bytes(p));
            lemma_path_record_roundtrip(q, Seq::empty());
        },
        PayloadView::RepoPathDeleteRequest(q) => {
            assert(payload_bytes(p) + Seq::<u8>::empty() =~= payload_bytes(p));
            lemma_path_record_roundtrip(q, Seq::empty());
        },
        PayloadView::RepoDataSizeReply(rs) => {
            lemma_size_reply_roundtrip(rs);
        },
        _ => {},
    }
}

} // verus!
