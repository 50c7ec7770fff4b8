//! Socket settings, credentials and the message records exchanged over
//! ZeroMQ, with the framing a message is sent in and read back from, and
//! the encoding of the messages the factory builds.

use vstd::prelude::*;
use vstd::string::*;
use vstd::slice::*;
use vstd::utf8::*;
use crate::text::{decimal, push_decimal, string_from_utf8};
use crate::wire::{concat_map, le16_bytes, le16_value, varint_bytes};

verus! {

broadcast use {encode_utf8_valid_utf8, encode_utf8_decode_utf8, decode_utf8_encode_utf8};

/// Whether sends wait for the peer.
#[derive(Debug, Clone, Copy, PartialEq, Eq, Structural)]
pub enum SocketCommunicationType {
    Asynchronous,
    Synchronous,
}

/// Whether a connection is kept open between messages.
#[derive(Debug, Clone, Copy, PartialEq, Eq, Structural)]
pub enum SocketConnectionLife {
    Intermittent,
    Persistent,
}

/// Which end of a connection a socket is.
#[derive(Debug, Clone, Copy, PartialEq, Eq, Structural)]
pub enum SocketClassType {
    Client,
    Server,
}

/// Transport of an address.
#[derive(Debug, Clone, Copy, PartialEq, Eq, Structural)]
pub enum UriScheme {
    Tcp,
    Inproc,
}

/// Whether messages flow one way or both ways.
#[derive(Debug, Clone, Copy, PartialEq, Eq, Structural)]
pub enum SocketDirectionalityType {
    Unidirectional,
    Bidirectional,
}

/// Whether a connection is encrypted.
#[derive(Debug, Clone, Copy, PartialEq, Eq, Structural)]
pub enum SocketConnectionSecurity {
    Secure,
    Insecure,
}

/// Protocol spoken on a socket.
#[derive(Debug, Clone, Copy, PartialEq, Eq, Structural)]
pub enum ProtocolType {
    Http,
    /// ZeroMQ transport protocol.
    Zqtp,
}

/// How a socket is set up.
#[derive(Debug, Clone)]
pub struct SocketOptions {
    pub scheme: UriScheme,
    pub class_type: SocketClassType,
    pub direction_type: SocketDirectionalityType,
    pub communication_type: SocketCommunicationType,
    pub connection_life: SocketConnectionLife,
    pub connection_security: SocketConnectionSecurity,
    pub protocol_type: ProtocolType,
    pub host: String,
    pub port: Option<u16>,
    pub local_id: Option<String>,
}

impl Default for SocketOptions {
    /// An insecure, persistent, asynchronous inproc server socket with no
    /// host, port or identity.
    fn default() -> (r: SocketOptions)
        ensures
            r.scheme == UriScheme::Inproc,
            r.class_type == SocketClassType::Server,
            r.direction_type == SocketDirectionalityType::Bidirectional,
            r.communication_type == SocketCommunicationType::Asynchronous,
            r.connection_life == SocketConnectionLife::Persistent,
            r.connection_security == SocketConnectionSecurity::Insecure,
            r.protocol_type == ProtocolType::Zqtp,
            r.host@ == Seq::<char>::empty(),
            r.port is None,
            r.local_id is None,
    {
        SocketOptions {
            scheme: UriScheme::Inproc,
            class_type: SocketClassType::Server,
            direction_type: SocketDirectionalityType::Bidirectional,
            communication_type: SocketCommunicationType::Asynchronous,
            connection_life: SocketConnectionLife::Persistent,
            connection_security: SocketConnectionSecurity::Insecure,
            protocol_type: ProtocolType::Zqtp,
            host: String::new(),
            port: None,
            local_id: None,
        }
    }
}

/// Kinds of key a credential store holds.
#[derive(Debug, Clone, Copy, PartialEq, Eq, Hash, Structural)]
pub enum CredentialType {
    PublicKey,
    PrivateKey,
    ServerKey,
}

/// A credential store holding one key pair; the public key doubles as the
/// server key.
#[derive(Debug, Clone)]
pub struct MockCredentials {
    public_key: String,
    private_key: String,
}

impl MockCredentials {
    /// A store for the given key pair.
    pub fn new(public_key: String, private_key: String) -> (r: MockCredentials)
        ensures
            r.public_key() == public_key@,
            r.private_key() == private_key@,
    {
        MockCredentials { public_key, private_key }
    }

    /// The public key held.
    pub closed spec fn public_key(&self) -> Seq<char> {
        self.public_key@
    }

    /// The private key held.
    pub closed spec fn private_key(&self) -> Seq<char> {
        self.private_key@
    }

    /// The key of the given kind; every kind is present.
    pub fn get(&self, cred_type: CredentialType) -> (r: Option<String>)
        ensures
            r matches Some(k) && k@ == match cred_type {
                CredentialType::PrivateKey => self.private_key(),
                _ => self.public_key(),
            },
    {
        match cred_type {
            CredentialType::PublicKey => Some(self.public_key.clone()),
            CredentialType::PrivateKey => Some(self.private_key.clone()),
            CredentialType::ServerKey => Some(self.public_key.clone()),
        }
    }

    /// Whether a key of the given kind is held: always.
    pub fn has(&self, cred_type: CredentialType) -> (r: bool)
        ensures
            r,
    {
        match cred_type {
            CredentialType::PublicKey => true,
            CredentialType::PrivateKey => true,
            CredentialType::ServerKey => true,
        }
    }
}

/// How a received message is read.
#[derive(Debug, Clone, Copy, PartialEq, Eq, Structural)]
pub enum MessageType {
    GoogleProtocolBuffer,
    String,
}

/// Whether a message asks or answers.
#[derive(Debug, Clone, Copy, PartialEq, Eq, Structural)]
pub enum MessageState {
    Request,
    Response,
}

/// Attributes a message can be asked for.
#[derive(Debug, Clone, Copy, PartialEq, Eq, Hash, Structural)]
pub enum MessageAttribute {
    Id,
    Key,
    State,
    CorrelationId,
}

/// A message as sent over a socket.
#[derive(Debug, Clone)]
pub struct ProtoMessage {
    pub correlation_id: String,
    pub state: MessageState,
    pub payload: Vec<u8>,
    pub message_type: u16,
    pub proto_id: u8,
}

/// The name of a message state, as its debug form writes it.
pub open spec fn state_name(s: MessageState) -> Seq<char> {
    match s {
        MessageState::Request => "Request"@,
        MessageState::Response => "Response"@,
    }
}

impl ProtoMessage {
    /// A message with the given fields.
    pub fn new(
        correlation_id: String,
        state: MessageState,
        payload: Vec<u8>,
        message_type: u16,
        proto_id: u8,
    ) -> (r: ProtoMessage)
        ensures
            r.correlation_id@ == correlation_id@,
            r.state == state,
            r.payload@ == payload@,
            r.message_type == message_type,
            r.proto_id == proto_id,
    {
        ProtoMessage { correlation_id, state, payload, message_type, proto_id }
    }

    /// The text of an attribute: the correlation id, or the state's name;
    /// other attributes are absent.
    pub fn get(&self, attr: MessageAttribute) -> (r: Option<String>)
        ensures
            match attr {
                MessageAttribute::CorrelationId => r matches Some(s) && s@ == self.correlation_id@,
                MessageAttribute::State => r matches Some(s) && s@ == state_name(self.state),
                _ => r is None,
            },
    {
        match attr {
            MessageAttribute::CorrelationId => Some(self.correlation_id.clone()),
            MessageAttribute::State => {
                proof {
                    reveal_strlit("Request");
                    reveal_strlit("Response");
                }
                match self.state {
                    MessageState::Request => Some("Request".to_owned()),
                    MessageState::Response => Some("Response".to_owned()),
                }
            },
            _ => None,
        }
    }

    /// Whether the attribute is present.
    pub fn attribute_exists(&self, attr: MessageAttribute) -> (r: bool)
        ensures
            r <==> (attr == MessageAttribute::CorrelationId || attr == MessageAttribute::State),
    {
        self.get(attr).is_some()
    }
}

/// The outcome of a receive.
#[derive(Debug)]
pub struct Response {
    pub events: i32,
    pub time_out: bool,
    pub error: bool,
    pub error_msg: String,
    pub message: Option<ProtoMessage>,
}

impl Default for Response {
    /// No events, no time-out, no error and no message.
    fn default() -> (r: Response)
        ensures
            r.events == 0,
            !r.time_out,
            !r.error,
            r.error_msg@ == Seq::<char>::empty(),
            r.message is None,
    {
        Response {
            events: 0,
            time_out: false,
            error: false,
            error_msg: String::new(),
            message: None,
        }
    }
}


// ---------------------------------------------------------------------------
// Socket set-up.
// ---------------------------------------------------------------------------

/// The ZeroMQ socket pattern a socket uses.
#[derive(Debug, Clone, Copy, PartialEq, Eq, Structural)]
pub enum SocketKind {
    Dealer,
    Router,
}

/// The socket pattern for the options: clients are dealers, servers
/// routers.
pub fn get_socket_type(options: &SocketOptions) -> (r: SocketKind)
    ensures
        r == match options.class_type {
            SocketClassType::Client => SocketKind::Dealer,
            SocketClassType::Server => SocketKind::Router,
        },
{
    match options.class_type {
        SocketClassType::Client => SocketKind::Dealer,
        SocketClassType::Server => SocketKind::Router,
    }
}

/// The address a socket binds or connects to: `tcp://host:port`, or
/// `inproc://host`; `None` for a TCP address without a port.
pub open spec fn socket_address(scheme: UriScheme, host: Seq<char>, port: Option<u16>) -> Option<
    Seq<char>,
> {
    match scheme {
        UriScheme::Tcp => match port {
            Some(p) => Some("tcp://"@ + host + ":"@ + decimal(p as nat)),
            None => None,
        },
        UriScheme::Inproc => Some("inproc://"@ + host),
    }
}

/// The address for the options, or `None` when a TCP address has no port.
pub fn build_address(options: &SocketOptions) -> (r: Option<String>)
    ensures
        match socket_address(options.scheme, options.host@, options.port) {
            Some(a) => r matches Some(s) && s@ == a,
            None => r is None,
        },
{
    match options.scheme {
        UriScheme::Tcp => match options.port {
            Some(p) => {
                proof {
                    reveal_strlit("tcp://");
                    reveal_strlit(":");
                }
                let mut a = "tcp://".to_owned();
                a.append(options.host.as_str());
                a.append(":");
                push_decimal(&mut a, p as u64);
                Some(a)
            },
            None => None,
        },
        UriScheme::Inproc => {
            proof {
                reveal_strlit("inproc://");
            }
            let mut a = "inproc://".to_owned();
            a.append(options.host.as_str());
            Some(a)
        },
    }
}

/// The address for the options, or `unknown` when there is none.
pub fn address(options: &SocketOptions) -> (r: String)
    ensures
        r@ == match socket_address(options.scheme, options.host@, options.port) {
            Some(a) => a,
            None => "unknown"@,
        },
{
    match build_address(options) {
        Some(a) => a,
        None => {
            proof {
                reveal_strlit("unknown");
            }
            "unknown".to_owned()
        },
    }
}

/// The keys a secure client socket is given: the server's public key, its
/// own public key and its own secret key.
#[derive(Debug, Clone)]
pub struct CurveKeys {
    pub server_key: String,
    pub public_key: String,
    pub secret_key: String,
}

/// The keys to install on the socket: only a secure client uses them.
pub fn curve_keys(options: &SocketOptions, credentials: &MockCredentials) -> (r: Option<CurveKeys>)
    ensures
        (options.connection_security == SocketConnectionSecurity::Secure && options.class_type
            == SocketClassType::Client) <==> r is Some,
        r matches Some(k) ==> k.server_key@ == credentials.public_key() && k.public_key@
            == credentials.public_key() && k.secret_key@ == credentials.private_key(),
{
    match (options.connection_security, options.class_type) {
        (SocketConnectionSecurity::Secure, SocketClassType::Client) => {
            let server_key = match credentials.get(CredentialType::ServerKey) {
                Some(k) => k,
                None => String::new(),
            };
            let public_key = match credentials.get(CredentialType::PublicKey) {
                Some(k) => k,
                None => String::new(),
            };
            let secret_key = match credentials.get(CredentialType::PrivateKey) {
                Some(k) => k,
                None => String::new(),
            };
            Some(CurveKeys { server_key, public_key, secret_key })
        },
        _ => None,
    }
}

/// Whether `s` has the shape of a hyphenated UUID: 36 characters with
/// hyphens at 8, 13, 18 and 23.
pub open spec fn uuid_shaped(s: Seq<char>) -> bool {
    &&& s.len() == 36
    &&& s[8] == '-'
    &&& s[13] == '-'
    &&& s[18] == '-'
    &&& s[23] == '-'
}

/// A fresh random identifier in hyphenated form.
///
/// Trusted: `uuid::Uuid::new_v4` formatted with `to_string`, which writes
/// the hyphenated form of 36 characters with hyphens at 8, 13, 18 and 23.
/// Which identifier comes out is chance and is not stated.
#[verifier::external_body]
fn new_uuid_string() -> (r: String)
    ensures
        uuid_shaped(r@),
{
    uuid::Uuid::new_v4().to_string()
}

/// The socket's identity: the configured one, else a fresh random one.
pub fn local_id(options: &SocketOptions) -> (r: String)
    ensures
        match options.local_id {
            Some(id) => r@ == id@,
            None => uuid_shaped(r@),
        },
{
    match &options.local_id {
        Some(id) => id.clone(),
        None => new_uuid_string(),
    }
}

// ---------------------------------------------------------------------------
// Framing.
// ---------------------------------------------------------------------------

/// The frames a message is sent as: the correlation id first when the
/// sender is a server (it routes the reply), then the message type as two
/// little-endian bytes, the protocol id as one byte, and the payload.
pub open spec fn message_frames(class: SocketClassType, m: ProtoMessage) -> Seq<Seq<u8>> {
    let body = seq![le16_bytes(m.message_type), seq![m.proto_id], m.payload@];
    if class == SocketClassType::Server {
        seq![encode_utf8(m.correlation_id@)] + body
    } else {
        body
    }
}

/// The message type a received type frame carries, or why it is refused.
pub open spec fn type_frame_value(f: Seq<u8>) -> Result<u16, Seq<char>> {
    if f.len() != 2 {
        Err("Invalid message type frame size"@)
    } else {
        Ok(le16_value(f))
    }
}

/// The protocol id a received frame carries, or why it is refused.
pub open spec fn proto_frame_value(f: Seq<u8>) -> Result<u8, Seq<char>> {
    if f.len() != 1 {
        Err("Invalid protocol ID frame size"@)
    } else {
        Ok(f[0])
    }
}

fn vec_of(bytes: &[u8]) -> (r: Vec<u8>)
    ensures
        r@ == bytes@,
{
    slice_to_vec(bytes)
}

/// The frames to send for `message` from a socket of class `class_type`.
pub fn message_frames_of(class_type: SocketClassType, message: &ProtoMessage) -> (r: Vec<Vec<u8>>)
    ensures
        r@.map_values(|f: Vec<u8>| f@) == message_frames(class_type, *message),
{
    let mut frames: Vec<Vec<u8>> = Vec::new();
    let t = message.message_type;
    let mut type_frame: Vec<u8> = Vec::new();
    type_frame.push((t % 256) as u8);
    type_frame.push((t / 256) as u8);
    assert(type_frame@ =~= le16_bytes(t));
    let mut proto_frame: Vec<u8> = Vec::new();
    proto_frame.push(message.proto_id);
    let payload = vec_of(message.payload.as_slice());
    if class_type == SocketClassType::Server {
        frames.push(vec_of(message.correlation_id.as_str().as_bytes()));
    }
    let ghost head = frames@;
    frames.push(type_frame);
    frames.push(proto_frame);
    frames.push(payload);
    proof {
        let fv = frames@.map_values(|f: Vec<u8>| f@);
        let body = seq![le16_bytes(message.message_type), seq![message.proto_id], message.payload@];
        if class_type == SocketClassType::Server {
            assert(fv[0] == encode_utf8(message.correlation_id@));
            assert(fv =~= seq![encode_utf8(message.correlation_id@)] + body);
        } else {
            assert(fv =~= body);
        }
    }
    frames
}

/// Reads the message type from a received type frame.
pub fn message_type_from_frame(frame: &[u8]) -> (r: Result<u16, String>)
    ensures
        match type_frame_value(frame@) {
            Ok(t) => r matches Ok(v) && v == t,
            Err(e) => r matches Err(m) && m@ == e,
        },
{
    if frame.len() != 2 {
        proof {
            reveal_strlit("Invalid message type frame size");
        }
        return Err("Invalid message type frame size".to_owned());
    }
    Ok(frame[0] as u16 + 256 * (frame[1] as u16))
}

/// Reads the protocol id from a received frame.
pub fn proto_id_from_frame(frame: &[u8]) -> (r: Result<u8, String>)
    ensures
        match proto_frame_value(frame@) {
            Ok(p) => r matches Ok(v) && v == p,
            Err(e) => r matches Err(m) && m@ == e,
        },
{
    if frame.len() != 1 {
        proof {
            reveal_strlit("Invalid protocol ID frame size");
        }
        return Err("Invalid protocol ID frame size".to_owned());
    }
    Ok(frame[0])
}

/// What a receiver reads back from the frames a sender of the same class
/// wrote: the correlation id (from a server), the message type, the
/// protocol id and the payload, each as it was sent.
pub proof fn lemma_frames_round_trip(class: SocketClassType, m: ProtoMessage)
    ensures
        ({
            let fs = message_frames(class, m);
            let o: int = if class == SocketClassType::Server {
                1
            } else {
                0
            };
            &&& fs.len() == 3 + o
            &&& class == SocketClassType::Server ==> decode_utf8(fs[0]) == m.correlation_id@
            &&& type_frame_value(fs[o]) == Ok::<u16, Seq<char>>(m.message_type)
            &&& proto_frame_value(fs[o + 1]) == Ok::<u8, Seq<char>>(m.proto_id)
            &&& fs[o + 2] == m.payload@
        }),
{
    crate::wire::lemma_le16_roundtrip(m.message_type, Seq::empty());
    assert(le16_bytes(m.message_type) + Seq::<u8>::empty() =~= le16_bytes(m.message_type));
}


// ---------------------------------------------------------------------------
// Protocol-buffer fields of the factory's messages.
// ---------------------------------------------------------------------------

/// The key of field `tag` with wire type `wire`.
pub open spec fn field_key(tag: nat, wire: nat) -> Seq<u8> {
    varint_bytes(tag * 8 + wire)
}

/// A `uint32` field.
pub open spec fn uint32_field(tag: nat, v: u32) -> Seq<u8> {
    field_key(tag, 0) + varint_bytes(v as nat)
}

/// An `int32` field: negative values are sign-extended to 64 bits.
pub open spec fn int32_field(tag: nat, v: i32) -> Seq<u8> {
    field_key(tag, 0) + varint_bytes(
        if v >= 0 {
            v as nat
        } else {
            (v + 0x1_0000_0000_0000_0000) as nat
        },
    )
}

/// A `string` field: key, byte length, UTF-8 bytes.
pub open spec fn string_field(tag: nat, s: Seq<char>) -> Seq<u8> {
    field_key(tag, 2) + varint_bytes(encode_utf8(s).len()) + encode_utf8(s)
}

/// A repeated `string` field: one string field per element, in order.
pub open spec fn repeated_string_field(tag: nat, ss: Seq<Seq<char>>) -> Seq<u8> {
    concat_map(ss, |s: Seq<char>| string_field(tag, s))
}

/// `uint32` fields numbered from 1 in order.
pub open spec fn uint32_fields(fs: Seq<u32>) -> Seq<u8>
    decreases fs.len(),
{
    if fs.len() == 0 {
        Seq::empty()
    } else {
        uint32_fields(fs.drop_last()) + uint32_field(fs.len(), fs.last())
    }
}

/// Appends a `uint32` field.
///
/// Trusted: `prost::encoding::uint32::encode` writes the key varint
/// `tag << 3` and then the value as a varint.
#[verifier::external_body]
fn put_uint32_field(tag: u32, value: u32, buf: &mut Vec<u8>)
    requires
        1 <= tag <= 0x1FFF_FFFF,
    ensures
        final(buf)@ == old(buf)@ + uint32_field(tag as nat, value),
{
    prost::encoding::uint32::encode(tag, &value, buf)
}

/// Appends an `int32` field.
///
/// Trusted: `prost::encoding::int32::encode` writes the key varint
/// `tag << 3` and then the value, cast to 64 bits, as a varint.
#[verifier::external_body]
fn put_int32_field(tag: u32, value: i32, buf: &mut Vec<u8>)
    requires
        1 <= tag <= 0x1FFF_FFFF,
    ensures
        final(buf)@ == old(buf)@ + int32_field(tag as nat, value),
{
    prost::encoding::int32::encode(tag, &value, buf)
}

/// Appends a `string` field.
///
/// Trusted: `prost::encoding::string::encode` writes the key varint
/// `tag << 3 | 2`, the byte length as a varint, and the bytes.
#[verifier::external_body]
fn put_string_field(tag: u32, value: &String, buf: &mut Vec<u8>)
    requires
        1 <= tag <= 0x1FFF_FFFF,
    ensures
        final(buf)@ == old(buf)@ + string_field(tag as nat, value@),
{
    prost::encoding::string::encode(tag, value, buf)
}

fn put_repeated_string_field(tag: u32, values: &Vec<String>, buf: &mut Vec<u8>)
    requires
        1 <= tag <= 0x1FFF_FFFF,
    ensures
        final(buf)@ == old(buf)@ + repeated_string_field(
            tag as nat,
            values@.map_values(|v: String| v@),
        ),
{
    let ghost ss = values@.map_values(|v: String| v@);
    let ghost f = |s: Seq<char>| string_field(tag as nat, s);
    let mut i: usize = 0;
    assert(concat_map(ss.take(0), f) =~= Seq::<u8>::empty());
    while i < values.len()
        invariant
            1 <= tag <= 0x1FFF_FFFF,
            i <= values@.len(),
            ss == values@.map_values(|v: String| v@),
            f == (|s: Seq<char>| string_field(tag as nat, s)),
            buf@ == old(buf)@ + concat_map(ss.take(i as int), f),
        decreases values@.len() - i,
    {
        put_string_field(tag, &values[i], buf);
        proof {
            crate::wire::lemma_concat_map_push(ss, f, i as int);
            assert(ss[i as int] == values@[i as int]@);
        }
        i = i + 1;
    }
    assert(ss.take(values@.len() as int) =~= ss);
}

/// Builds protocol messages for the requests and replies exchanged with the
/// core server. Each message's fields are numbered from 1 in declaration
/// order and all present; an optional field only when set.
pub struct MessageFactory;

impl MessageFactory {
    /// A factory.
    pub fn new() -> (r: MessageFactory) {
        MessageFactory
    }

    /// A version request: type 1 of protocol 1, no fields, a fresh
    /// correlation id.
    pub fn create_version_request(&self) -> (r: ProtoMessage)
        ensures
            r.message_type == 1,
            r.proto_id == 1,
            r.state == MessageState::Request,
            r.payload@ == Seq::<u8>::empty(),
            uuid_shaped(r.correlation_id@),
    {
        ProtoMessage::new(new_uuid_string(), MessageState::Request, Vec::new(), 1, 1)
    }

    /// A version reply: type 2 of protocol 1, release 2024-12-01 00:00,
    /// API 1.0.0, component 1.0.0, eleven `uint32` fields.
    pub fn create_version_reply(&self, correlation_id: String) -> (r: ProtoMessage)
        ensures
            r.message_type == 2,
            r.proto_id == 1,
            r.state == MessageState::Response,
            r.correlation_id@ == correlation_id@,
            r.payload@ == uint32_fields(seq![2024u32, 12, 1, 0, 0, 1, 0, 0, 1, 0, 0]),
    {
        let values: [u32; 11] = [2024, 12, 1, 0, 0, 1, 0, 0, 1, 0, 0];
        let ghost fs = seq![2024u32, 12, 1, 0, 0, 1, 0, 0, 1, 0, 0];
        assert(values@ =~= fs);
        let mut payload: Vec<u8> = Vec::new();
        let mut i: usize = 0;
        assert(fs.take(0) =~= Seq::<u32>::empty());
        while i < 11
            invariant
                i <= 11,
                values@ == fs,
                fs.len() == 11,
                payload@ == uint32_fields(fs.take(i as int)),
            decreases 11 - i,
        {
            put_uint32_field((i + 1) as u32, values[i], &mut payload);
            proof {
                assert(fs.take(i + 1).drop_last() =~= fs.take(i as int));
                assert(fs.take(i + 1).last() == fs[i as int]);
            }
            i = i + 1;
        }
        assert(fs.take(11) =~= fs);
        ProtoMessage::new(correlation_id, MessageState::Response, payload, 2, 1)
    }

    /// A data delete request: type 3 of protocol 2, the record ids as
    /// field 1 and the file paths as field 2, a fresh correlation id.
    pub fn create_repo_data_delete_request(&self, record_ids: Vec<String>, file_paths: Vec<String>) -> (r:
        ProtoMessage)
        ensures
            r.message_type == 3,
            r.proto_id == 2,
            r.state == MessageState::Request,
            r.payload@ == repeated_string_field(1, record_ids@.map_values(|v: String| v@))
                + repeated_string_field(2, file_paths@.map_values(|v: String| v@)),
            uuid_shaped(r.correlation_id@),
    {
        let mut payload: Vec<u8> = Vec::new();
        put_repeated_string_field(1, &record_ids, &mut payload);
        put_repeated_string_field(2, &file_paths, &mut payload);
        ProtoMessage::new(new_uuid_string(), MessageState::Request, payload, 3, 2)
    }

    /// A data size request: type 4 of protocol 2, the record ids as field 1
    /// and the file paths as field 2, a fresh correlation id.
    pub fn create_repo_data_get_size_request(
        &self,
        record_ids: Vec<String>,
        file_paths: Vec<String>,
    ) -> (r: ProtoMessage)
        ensures
            r.message_type == 4,
            r.proto_id == 2,
            r.state == MessageState::Request,
            r.payload@ == repeated_string_field(1, record_ids@.map_values(|v: String| v@))
                + repeated_string_field(2, file_paths@.map_values(|v: String| v@)),
            uuid_shaped(r.correlation_id@),
    {
        let mut payload: Vec<u8> = Vec::new();
        put_repeated_string_field(1, &record_ids, &mut payload);
        put_repeated_string_field(2, &file_paths, &mut payload);
        ProtoMessage::new(new_uuid_string(), MessageState::Request, payload, 4, 2)
    }

    /// A path create request: type 5 of protocol 2, the path as field 1, a
    /// fresh correlation id.
    pub fn create_repo_path_create_request(&self, path: String) -> (r: ProtoMessage)
        ensures
            r.message_type == 5,
            r.proto_id == 2,
            r.state == MessageState::Request,
            r.payload@ == string_field(1, path@),
            uuid_shaped(r.correlation_id@),
    {
        let mut payload: Vec<u8> = Vec::new();
        put_string_field(1, &path, &mut payload);
        ProtoMessage::new(new_uuid_string(), MessageState::Request, payload, 5, 2)
    }

    /// A path delete request: type 6 of protocol 2, the path as field 1, a
    /// fresh correlation id.
    pub fn create_repo_path_delete_request(&self, path: String) -> (r: ProtoMessage)
        ensures
            r.message_type == 6,
            r.proto_id == 2,
            r.state == MessageState::Request,
            r.payload@ == string_field(1, path@),
            uuid_shaped(r.correlation_id@),
    {
        let mut payload: Vec<u8> = Vec::new();
        put_string_field(1, &path, &mut payload);
        ProtoMessage::new(new_uuid_string(), MessageState::Request, payload, 6, 2)
    }

    /// An acknowledgement: type 7 of protocol 2, the optional text as
    /// field 1.
    pub fn create_ack_reply(&self, correlation_id: String, message: Option<String>) -> (r:
        ProtoMessage)
        ensures
            r.message_type == 7,
            r.proto_id == 2,
            r.state == MessageState::Response,
            r.correlation_id@ == correlation_id@,
            r.payload@ == match message {
                Some(m) => string_field(1, m@),
                None => Seq::<u8>::empty(),
            },
    {
        let mut payload: Vec<u8> = Vec::new();
        match &message {
            Some(m) => put_string_field(1, m, &mut payload),
            None => {},
        }
        ProtoMessage::new(correlation_id, MessageState::Response, payload, 7, 2)
    }

    /// A negative acknowledgement: type 8 of protocol 2, the error code as
    /// field 1 and the text as field 2.
    pub fn create_nack_reply(&self, correlation_id: String, err_code: i32, err_msg: String) -> (r:
        ProtoMessage)
        ensures
            r.message_type == 8,
            r.proto_id == 2,
            r.state == MessageState::Response,
            r.correlation_id@ == correlation_id@,
            r.payload@ == int32_field(1, err_code) + string_field(2, err_msg@),
    {
        let mut payload: Vec<u8> = Vec::new();
        put_int32_field(1, err_code, &mut payload);
        put_string_field(2, &err_msg, &mut payload);
        ProtoMessage::new(correlation_id, MessageState::Response, payload, 8, 2)
    }
}

/// Makes communicators.
pub struct CommunicatorFactory;

impl CommunicatorFactory {
    /// A factory.
    pub fn new() -> (r: CommunicatorFactory) {
        CommunicatorFactory
    }
}

// ---------------------------------------------------------------------------
// Receiving, one frame at a time.
// ---------------------------------------------------------------------------

/// Which frame a receive waits for next.
#[derive(Debug, Clone, Copy, PartialEq, Eq, Structural)]
pub enum ReceivePhase {
    CorrelationId,
    MessageType,
    ProtoId,
    Payload,
}

/// A receive of a protocol-buffer message in progress: what was read so far.
#[derive(Debug, Clone)]
pub struct Receiving {
    pub phase: ReceivePhase,
    pub correlation_id: String,
    pub message_type: u16,
    pub proto_id: u8,
}

/// What the socket gave when asked for the awaited frame.
#[derive(Debug, Clone)]
pub enum FrameEvent {
    /// The frame's bytes.
    Frame(Vec<u8>),
    /// Nothing arrived before the receive timeout.
    TimedOut,
    /// The socket reported this error.
    Failed(String),
}

/// A receive goes on with the next frame, or is over.
#[derive(Debug)]
pub enum ReceiveStep {
    Next(Receiving),
    Finished(Response),
}

/// A receive in progress, with text as characters.
pub struct ReceivingView {
    pub phase: ReceivePhase,
    pub correlation_id: Seq<char>,
    pub message_type: u16,
    pub proto_id: u8,
}

/// A socket event, with bytes and text as sequences.
pub enum FrameView {
    Frame(Seq<u8>),
    TimedOut,
    Failed(Seq<char>),
}

/// How a receive ends: timed out, failed with a text, or with a request
/// message of the given correlation id, type, protocol id and payload.
pub enum ReplyView {
    TimedOut,
    Failed(Seq<char>),
    Received(Seq<char>, u16, u8, Seq<u8>),
}

/// A receive step, as values.
pub enum ReceiveStepView {
    Next(ReceivingView),
    Finished(ReplyView),
}

impl View for Receiving {
    type V = ReceivingView;

    open spec fn view(&self) -> ReceivingView {
        ReceivingView {
            phase: self.phase,
            correlation_id: self.correlation_id@,
            message_type: self.message_type,
            proto_id: self.proto_id,
        }
    }
}

impl View for FrameEvent {
    type V = FrameView;

    open spec fn view(&self) -> FrameView {
        match self {
            FrameEvent::Frame(b) => FrameView::Frame(b@),
            FrameEvent::TimedOut => FrameView::TimedOut,
            FrameEvent::Failed(e) => FrameView::Failed(e@),
        }
    }
}

/// Whether the response `r` is the outcome `v`, every other field left at
/// its default.
pub open spec fn response_is(r: Response, v: ReplyView) -> bool {
    &&& r.events == 0
    &&& match v {
        ReplyView::TimedOut => r.time_out && !r.error && r.error_msg@ == Seq::<char>::empty()
            && r.message is None,
        ReplyView::Failed(e) => !r.time_out && r.error && r.error_msg@ == e && r.message is None,
        ReplyView::Received(c, t, p, b) => {
            &&& !r.time_out
            &&& !r.error
            &&& r.error_msg@ == Seq::<char>::empty()
            &&& r.message matches Some(m) && m.correlation_id@ == c && m.state
                == MessageState::Request && m.message_type == t && m.proto_id == p && m.payload@
                == b
        },
    }
}

/// Whether the step `r` is the step `v`.
pub open spec fn step_is(r: ReceiveStep, v: ReceiveStepView) -> bool {
    match v {
        ReceiveStepView::Next(s) => r matches ReceiveStep::Next(x) && x@ == s,
        ReceiveStepView::Finished(o) => r matches ReceiveStep::Finished(resp) && response_is(resp, o),
    }
}

/// What is being received in a phase, as the error texts name it.
pub open spec fn phase_subject(p: ReceivePhase) -> Seq<char> {
    match p {
        ReceivePhase::CorrelationId => "correlation ID"@,
        ReceivePhase::MessageType => "message type"@,
        ReceivePhase::ProtoId => "protocol ID"@,
        ReceivePhase::Payload => "payload"@,
    }
}

/// The step a receive in state `s` takes on event `e`: a time-out ends it,
/// a socket error ends it with `Error receiving <subject>: <error>`; a
/// frame is checked and stored, and the payload frame completes the
/// message.
pub open spec fn receive_next(s: ReceivingView, e: FrameView) -> ReceiveStepView {
    match e {
        FrameView::TimedOut => ReceiveStepView::Finished(ReplyView::TimedOut),
        FrameView::Failed(t) => ReceiveStepView::Finished(
            ReplyView::Failed("Error receiving "@ + phase_subject(s.phase) + ": "@ + t),
        ),
        FrameView::Frame(b) => match s.phase {
            ReceivePhase::CorrelationId => if valid_utf8(b) {
                ReceiveStepView::Next(
                    ReceivingView {
                        phase: ReceivePhase::MessageType,
                        correlation_id: decode_utf8(b),
                        ..s
                    },
                )
            } else {
                ReceiveStepView::Finished(ReplyView::Failed("Failed to receive correlation ID"@))
            },
            ReceivePhase::MessageType => match type_frame_value(b) {
                Ok(t) => ReceiveStepView::Next(
                    ReceivingView { phase: ReceivePhase::ProtoId, message_type: t, ..s },
                ),
                Err(m) => ReceiveStepView::Finished(ReplyView::Failed(m)),
            },
            ReceivePhase::ProtoId => match proto_frame_value(b) {
                Ok(p) => ReceiveStepView::Next(
                    ReceivingView { phase: ReceivePhase::Payload, proto_id: p, ..s },
                ),
                Err(m) => ReceiveStepView::Finished(ReplyView::Failed(m)),
            },
            ReceivePhase::Payload => ReceiveStepView::Finished(
                ReplyView::Received(s.correlation_id, s.message_type, s.proto_id, b),
            ),
        },
    }
}

fn failed_response(error_msg: String) -> (r: Response)
    ensures
        response_is(r, ReplyView::Failed(error_msg@)),
{
    Response { events: 0, time_out: false, error: true, error_msg, message: None }
}

fn timed_out_response() -> (r: Response)
    ensures
        response_is(r, ReplyView::TimedOut),
{
    Response { events: 0, time_out: true, error: false, error_msg: String::new(), message: None }
}

fn subject_text(p: ReceivePhase) -> (r: &'static str)
    ensures
        r@ == phase_subject(p),
{
    proof {
        reveal_strlit("correlation ID");
        reveal_strlit("message type");
        reveal_strlit("protocol ID");
        reveal_strlit("payload");
    }
    match p {
        ReceivePhase::CorrelationId => "correlation ID",
        ReceivePhase::MessageType => "message type",
        ReceivePhase::ProtoId => "protocol ID",
        ReceivePhase::Payload => "payload",
    }
}

/// The state a receive starts in: a server first reads the correlation id
/// frame; a client has no such frame and takes a fresh random id.
pub fn start_receive(class_type: SocketClassType) -> (r: Receiving)
    ensures
        r.message_type == 0,
        r.proto_id == 0,
        class_type == SocketClassType::Server ==> r.phase == ReceivePhase::CorrelationId
            && r.correlation_id@ == Seq::<char>::empty(),
        class_type == SocketClassType::Client ==> r.phase == ReceivePhase::MessageType
            && uuid_shaped(r.correlation_id@),
{
    match class_type {
        SocketClassType::Server => Receiving {
            phase: ReceivePhase::CorrelationId,
            correlation_id: String::new(),
            message_type: 0,
            proto_id: 0,
        },
        SocketClassType::Client => Receiving {
            phase: ReceivePhase::MessageType,
            correlation_id: new_uuid_string(),
            message_type: 0,
            proto_id: 0,
        },
    }
}

/// Takes one receive step.
pub fn receive_step(state: Receiving, event: FrameEvent) -> (r: ReceiveStep)
    ensures
        step_is(r, receive_next(state@, event@)),
{
    match event {
        FrameEvent::TimedOut => ReceiveStep::Finished(timed_out_response()),
        FrameEvent::Failed(e) => {
            let mut m = "Error receiving ".to_owned();
            m.append(subject_text(state.phase));
            m.append(": ");
            m.append(e.as_str());
            ReceiveStep::Finished(failed_response(m))
        },
        FrameEvent::Frame(bytes) => match state.phase {
            ReceivePhase::CorrelationId => match string_from_utf8(bytes) {
                Ok(id) => ReceiveStep::Next(
                    Receiving {
                        phase: ReceivePhase::MessageType,
                        correlation_id: id,
                        message_type: state.message_type,
                        proto_id: state.proto_id,
                    },
                ),
                Err(_) => {
                    proof {
                        reveal_strlit("Failed to receive correlation ID");
                    }
                    ReceiveStep::Finished(
                        failed_response("Failed to receive correlation ID".to_owned()),
                    )
                },
            },
            ReceivePhase::MessageType => match message_type_from_frame(bytes.as_slice()) {
                Ok(t) => ReceiveStep::Next(
                    Receiving {
                        phase: ReceivePhase::ProtoId,
                        correlation_id: state.correlation_id,
                        message_type: t,
                        proto_id: state.proto_id,
                    },
                ),
                Err(m) => ReceiveStep::Finished(failed_response(m)),
            },
            ReceivePhase::ProtoId => match proto_id_from_frame(bytes.as_slice()) {
                Ok(p) => ReceiveStep::Next(
                    Receiving {
                        phase: ReceivePhase::Payload,
                        correlation_id: state.correlation_id,
                        message_type: state.message_type,
                        proto_id: p,
                    },
                ),
                Err(m) => ReceiveStep::Finished(failed_response(m)),
            },
            ReceivePhase::Payload => {
                let message = ProtoMessage::new(
                    state.correlation_id,
                    MessageState::Request,
                    bytes,
                    state.message_type,
                    state.proto_id,
                );
                ReceiveStep::Finished(
                    Response {
                        events: 0,
                        time_out: false,
                        error: false,
                        error_msg: String::new(),
                        message: Some(message),
                    },
                )
            },
        },
    }
}

/// The outcome of receiving a plain text message: its bytes become the
/// payload of a request with a fresh id, type 0 and protocol 0.
pub fn receive_string_message(event: FrameEvent) -> (r: Response)
    ensures
        match event@ {
            FrameView::TimedOut => response_is(r, ReplyView::TimedOut),
            FrameView::Failed(t) => response_is(
                r,
                ReplyView::Failed("Error receiving string message: "@ + t),
            ),
            FrameView::Frame(b) => if valid_utf8(b) {
                response_is(r, ReplyView::Received(r.message->0.correlation_id@, 0, 0, b))
                    && uuid_shaped(r.message->0.correlation_id@)
            } else {
                response_is(r, ReplyView::Failed("Failed to receive string message"@))
            },
        },
{
    match event {
        FrameEvent::TimedOut => timed_out_response(),
        FrameEvent::Failed(e) => {
            let mut m = "Error receiving string message: ".to_owned();
            m.append(e.as_str());
            failed_response(m)
        },
        FrameEvent::Frame(bytes) => {
            let ghost b = bytes@;
            match string_from_utf8(bytes) {
                Ok(text) => {
                    let payload = vec_of(text.as_str().as_bytes());
                    let message = ProtoMessage::new(
                        new_uuid_string(),
                        MessageState::Request,
                        payload,
                        0,
                        0,
                    );
                    Response {
                        events: 0,
                        time_out: false,
                        error: false,
                        error_msg: String::new(),
                        message: Some(message),
                    }
                },
                Err(_) => {
                    proof {
                        reveal_strlit("Failed to receive string message");
                    }
                    failed_response("Failed to receive string message".to_owned())
                },
            }
        },
    }
}

/// Feeds frames to a receive in turn until it is over or the frames run
/// out.
pub open spec fn receive_frames(s: ReceivingView, fs: Seq<Seq<u8>>) -> ReceiveStepView
    decreases fs.len(),
{
    if fs.len() == 0 {
        ReceiveStepView::Next(s)
    } else {
        match receive_next(s, FrameView::Frame(fs[0])) {
            ReceiveStepView::Next(t) => receive_frames(t, fs.drop_first()),
            done => done,
        }
    }
}

/// A receive that is fed the frames a sender of the same class wrote reads
/// the message back: a server gets the sender's correlation id, a client
/// keeps its own; type, protocol id and payload are those sent.
pub proof fn lemma_receive_reads_back_sent_message(class: SocketClassType, m: ProtoMessage, start: ReceivingView)
    requires
        class == SocketClassType::Server ==> start.phase == ReceivePhase::CorrelationId,
        class == SocketClassType::Client ==> start.phase == ReceivePhase::MessageType,
    ensures
        receive_frames(start, message_frames(class, m)) == ReceiveStepView::Finished(
            ReplyView::Received(
                if class == SocketClassType::Server {
                    m.correlation_id@
                } else {
                    start.correlation_id
                },
                m.message_type,
                m.proto_id,
                m.payload@,
            ),
        ),
{
    lemma_frames_round_trip(class, m);
    let fs = message_frames(class, m);
    let done = ReceiveStepView::Finished(
        ReplyView::Received(
            if class == SocketClassType::Server {
                m.correlation_id@
            } else {
                start.correlation_id
            },
            m.message_type,
            m.proto_id,
            m.payload@,
        ),
    );
    let s1 = if class == SocketClassType::Server {
        ReceivingView { phase: ReceivePhase::MessageType, correlation_id: m.correlation_id@, ..start }
    } else {
        start
    };
    let s2 = ReceivingView { phase: ReceivePhase::ProtoId, message_type: m.message_type, ..s1 };
    let s3 = ReceivingView { phase: ReceivePhase::Payload, proto_id: m.proto_id, ..s2 };
    let t1 = if class == SocketClassType::Server {
        fs.drop_first()
    } else {
        fs
    };
    let t2 = t1.drop_first();
    let t3 = t2.drop_first();
    assert(t1.len() == 3 && t1[0] == le16_bytes(m.message_type) && t1[1] == seq![m.proto_id]
        && t1[2] == m.payload@);
    assert(t2.len() == 2 && t2[0] == seq![m.proto_id] && t2[1] == m.payload@);
    assert(t3.len() == 1 && t3[0] == m.payload@);
    assert(receive_next(s3, FrameView::Frame(t3[0])) == done);
    assert(receive_frames(s3, t3) == done);
    assert(receive_next(s2, FrameView::Frame(t2[0])) == ReceiveStepView::Next(s3));
    assert(receive_frames(s2, t2) == done);
    assert(receive_next(s1, FrameView::Frame(t1[0])) == ReceiveStepView::Next(s2));
    assert(receive_frames(s1, t1) == done);
    if class == SocketClassType::Server {
        assert(receive_next(start, FrameView::Frame(fs[0])) == ReceiveStepView::Next(s1));
        assert(receive_frames(start, fs) == done);
    }
}

/// How a socket is set up: its pattern, the identity it announces (only a
/// configured one), the Curve keys of a secure client, the address, whether
/// it binds (a server) or connects (a client), and the identity it reports.
#[derive(Debug, Clone)]
pub struct SocketPlan {
    pub kind: SocketKind,
    pub identity: Option<String>,
    pub curve: Option<CurveKeys>,
    pub address: String,
    pub bind: bool,
    pub local_id: String,
}

/// The set-up of a socket for the options, or `None` when they give no
/// address (a TCP address without a port).
pub fn plan_socket(options: &SocketOptions, credentials: &MockCredentials) -> (r: Option<SocketPlan>)
    ensures
        socket_address(options.scheme, options.host@, options.port) is None <==> r is None,
        r matches Some(p) ==> {
            &&& p.kind == match options.class_type {
                SocketClassType::Client => SocketKind::Dealer,
                SocketClassType::Server => SocketKind::Router,
            }
            &&& p.identity == options.local_id
            &&& (p.curve is Some <==> (options.connection_security
                == SocketConnectionSecurity::Secure && options.class_type
                == SocketClassType::Client))
            &&& (p.curve matches Some(k) ==> k.server_key@ == credentials.public_key()
                && k.public_key@ == credentials.public_key() && k.secret_key@
                == credentials.private_key())
            &&& p.address@ == socket_address(options.scheme, options.host@, options.port)->0
            &&& p.bind == (options.class_type == SocketClassType::Server)
            &&& match options.local_id {
                Some(id) => p.local_id@ == id@,
                None => uuid_shaped(p.local_id@),
            }
        },
{
    let kind = get_socket_type(options);
    let curve = curve_keys(options, credentials);
    match build_address(options) {
        None => None,
        Some(address) => {
            let bind = options.class_type == SocketClassType::Server;
            let id = local_id(options);
            Some(
                SocketPlan {
                    kind,
                    identity: options.local_id.clone(),
                    curve,
                    address,
                    bind,
                    local_id: id,
                },
            )
        },
    }
}

} // verus!
