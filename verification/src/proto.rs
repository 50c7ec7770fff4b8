//! Request and reply payloads exchanged with the core server and clients,
//! with their byte encodings.
//!
//! Two encodings meet here. The `serialize` methods write a compact
//! little-endian framing: 32-bit counts and lengths followed by raw bytes.
//! The location-list requests arriving from clients are decoded from
//! protocol-buffer bytes: one-byte field tags, varint lengths, nested
//! location records whose field 1 is the record id and field 2 the path.

use vstd::prelude::*;
use vstd::slice::*;
use vstd::utf8::*;
use crate::text::{string_from_utf8, utf8_failure, Utf8Failure};
use crate::wire::{
    concat_map, le32_bytes, le32_value, le64_bytes, le64_value, lemma_concat_map_push,
    lemma_le32_roundtrip, lemma_le_roundtrip, lemma_varint_len_beyond, push_bytes, push_le32, push_le64, read_le32, read_le64,
    lemma_varint32_roundtrip, read_varint32, varint32_prefix, varint_bytes,
};

verus! {

broadcast use {encode_utf8_valid_utf8, encode_utf8_decode_utf8};

/// Why a payload could not be decoded.
#[derive(Debug, Clone, Copy, PartialEq, Eq, Structural)]
pub enum DecodeError {
    /// Fewer bytes than the fixed part of the payload needs.
    TooShort,
    /// A length or field runs past the end, or a varint is malformed.
    Malformed,
    /// A text field is not valid UTF-8.
    InvalidUtf8(Utf8Failure),
    /// The envelope names a message type this server does not know.
    UnknownMessageType(u16),
}

/// A location as characters: record id and path.
pub type LocationView = (Seq<char>, Seq<char>);

/// A record size as characters and number: record id and size in bytes.
pub type SizeView = (Seq<char>, u64);

/// Request for the server's version; it carries no fields.
#[derive(Debug, Clone, Copy)]
pub struct VersionRequest;

/// Release date and version numbers of a component.
#[derive(Debug, Clone, Copy, PartialEq, Eq, Structural)]
pub struct VersionReply {
    pub release_year: u32,
    pub release_month: u32,
    pub release_day: u32,
    pub release_hour: u32,
    pub release_minute: u32,
    pub api_major: u32,
    pub api_minor: u32,
    pub api_patch: u32,
    pub component_major: u32,
    pub component_minor: u32,
    pub component_patch: u32,
}

/// Where the data of one record lives.
#[derive(Debug, Clone)]
pub struct RecordDataLocation {
    pub id: String,
    pub path: String,
}

/// Size in bytes of the data of one record.
#[derive(Debug, Clone)]
pub struct RecordDataSize {
    pub id: String,
    pub size: u64,
}

/// Request to delete the data files of records.
#[derive(Debug, Clone)]
pub struct RepoDataDeleteRequest {
    pub loc: Vec<RecordDataLocation>,
}

/// Request for the sizes of the data files of records.
#[derive(Debug, Clone)]
pub struct RepoDataGetSizeRequest {
    pub loc: Vec<RecordDataLocation>,
}

/// Request to create a directory.
#[derive(Debug, Clone)]
pub struct RepoPathCreateRequest {
    pub path: String,
}

/// Request to delete a directory tree.
#[derive(Debug, Clone)]
pub struct RepoPathDeleteRequest {
    pub path: String,
}

/// Sizes of the data files of records.
#[derive(Debug, Clone)]
pub struct RepoDataSizeReply {
    pub size: Vec<RecordDataSize>,
}

impl View for RecordDataLocation {
    type V = LocationView;

    open spec fn view(&self) -> LocationView {
        (self.id@, self.path@)
    }
}

impl View for RecordDataSize {
    type V = SizeView;

    open spec fn view(&self) -> SizeView {
        (self.id@, self.size)
    }
}

/// Character view of a list of locations.
pub open spec fn locations_view(locs: Seq<RecordDataLocation>) -> Seq<LocationView> {
    locs.map_values(|l: RecordDataLocation| l@)
}

/// Character view of a list of record sizes.
pub open spec fn sizes_view(sizes: Seq<RecordDataSize>) -> Seq<SizeView> {
    sizes.map_values(|r: RecordDataSize| r@)
}

impl View for RepoDataDeleteRequest {
    type V = Seq<LocationView>;

    open spec fn view(&self) -> Seq<LocationView> {
        locations_view(self.loc@)
    }
}

impl View for RepoDataGetSizeRequest {
    type V = Seq<LocationView>;

    open spec fn view(&self) -> Seq<LocationView> {
        locations_view(self.loc@)
    }
}

impl View for RepoPathCreateRequest {
    type V = Seq<char>;

    open spec fn view(&self) -> Seq<char> {
        self.path@
    }
}

impl View for RepoPathDeleteRequest {
    type V = Seq<char>;

    open spec fn view(&self) -> Seq<char> {
        self.path@
    }
}

impl View for RepoDataSizeReply {
    type V = Seq<SizeView>;

    open spec fn view(&self) -> Seq<SizeView> {
        sizes_view(self.size@)
    }
}

// ---------------------------------------------------------------------------
// Compact little-endian framing written by `serialize`.
// ---------------------------------------------------------------------------

/// A count or length as the framing stores it: reduced to 32 bits.
pub open spec fn len32(n: nat) -> u32 {
    (n % 0x1_0000_0000) as u32
}

/// A text field: its UTF-8 byte length as 32 bits, then the bytes.
pub open spec fn text_record(t: Seq<char>) -> Seq<u8> {
    le32_bytes(len32(encode_utf8(t).len())) + encode_utf8(t)
}

/// A location: its id, then its path, each as a text field.
pub open spec fn location_record(l: LocationView) -> Seq<u8> {
    text_record(l.0) + text_record(l.1)
}

/// A record size: its id as a text field, then the size as 64 bits.
pub open spec fn size_record(r: SizeView) -> Seq<u8> {
    text_record(r.0) + le64_bytes(r.1)
}

/// A list of locations: the count as 32 bits, then each location.
pub open spec fn location_list_bytes(ls: Seq<LocationView>) -> Seq<u8> {
    le32_bytes(len32(ls.len())) + concat_map(ls, |l: LocationView| location_record(l))
}

/// A list of record sizes: the count as 32 bits, then each record.
pub open spec fn size_list_bytes(rs: Seq<SizeView>) -> Seq<u8> {
    le32_bytes(len32(rs.len())) + concat_map(rs, |r: SizeView| size_record(r))
}

/// The eleven fields of a version reply, in declaration order.
pub open spec fn version_fields(v: VersionReply) -> Seq<u32> {
    seq![
        v.release_year,
        v.release_month,
        v.release_day,
        v.release_hour,
        v.release_minute,
        v.api_major,
        v.api_minor,
        v.api_patch,
        v.component_major,
        v.component_minor,
        v.component_patch,
    ]
}

/// The fields of a version reply, each as 32 little-endian bits, in
/// declaration order.
pub open spec fn version_reply_bytes(v: VersionReply) -> Seq<u8> {
    concat_map(version_fields(v), |x: u32| le32_bytes(x))
}

/// The version reply stored in the first 44 bytes of `s`.
pub open spec fn version_reply_at(s: Seq<u8>) -> VersionReply {
    VersionReply {
        release_year: le32_value(s),
        release_month: le32_value(s.skip(4)),
        release_day: le32_value(s.skip(8)),
        release_hour: le32_value(s.skip(12)),
        release_minute: le32_value(s.skip(16)),
        api_major: le32_value(s.skip(20)),
        api_minor: le32_value(s.skip(24)),
        api_patch: le32_value(s.skip(28)),
        component_major: le32_value(s.skip(32)),
        component_minor: le32_value(s.skip(36)),
        component_patch: le32_value(s.skip(40)),
    }
}

/// Decoding of a version reply: at least 44 bytes, extra bytes ignored.
pub open spec fn parse_version_reply(s: Seq<u8>) -> Result<VersionReply, DecodeError> {
    if s.len() < 44 {
        Err(DecodeError::TooShort)
    } else {
        Ok(version_reply_at(s))
    }
}

/// Decoding of a single-path request: a text field; bytes after it are
/// ignored.
pub open spec fn parse_path_record(s: Seq<u8>) -> Result<Seq<char>, DecodeError> {
    if s.len() < 4 {
        Err(DecodeError::TooShort)
    } else if 4 + le32_value(s) > s.len() {
        Err(DecodeError::Malformed)
    } else if !valid_utf8(s.subrange(4, 4 + le32_value(s))) {
        Err(DecodeError::InvalidUtf8(utf8_failure(s.subrange(4, 4 + le32_value(s)))))
    } else {
        Ok(decode_utf8(s.subrange(4, 4 + le32_value(s))))
    }
}

/// Decoding of `count` record sizes starting at `i`, appended to `acc`.
pub open spec fn size_records_from(s: Seq<u8>, i: int, count: nat, acc: Seq<SizeView>) -> Result<
    Seq<SizeView>,
    DecodeError,
>
    decreases count,
{
    if count == 0 {
        Ok(acc)
    } else if i + 4 > s.len() {
        Err(DecodeError::Malformed)
    } else {
        let n = le32_value(s.skip(i));
        if i + 4 + n > s.len() {
            Err(DecodeError::Malformed)
        } else if !valid_utf8(s.subrange(i + 4, i + 4 + n)) {
            Err(DecodeError::InvalidUtf8(utf8_failure(s.subrange(i + 4, i + 4 + n))))
        } else if i + 4 + n + 8 > s.len() {
            Err(DecodeError::Malformed)
        } else {
            size_records_from(
                s,
                i + 4 + n + 8,
                (count - 1) as nat,
                acc.push((decode_utf8(s.subrange(i + 4, i + 4 + n)), le64_value(s.skip(i + 4 + n)))),
            )
        }
    }
}

/// Decoding of a size reply: the record count, then that many records;
/// bytes after the last record are ignored.
pub open spec fn parse_size_reply(s: Seq<u8>) -> Result<Seq<SizeView>, DecodeError> {
    if s.len() < 4 {
        Err(DecodeError::TooShort)
    } else {
        size_records_from(s, 4, le32_value(s) as nat, seq![])
    }
}

// ---------------------------------------------------------------------------
// Protocol-buffer location lists.
// ---------------------------------------------------------------------------

/// The length-delimited field whose length prefix starts at `i`: its payload
/// and the position after it; `None` when the prefix is malformed or the
/// payload runs past the end.
pub open spec fn delimited_at(s: Seq<u8>, i: int) -> Option<(Seq<u8>, int)> {
    match varint32_prefix(s.subrange(i, s.len() as int)) {
        Some((n, k)) => if i + k + n <= s.len() {
            Some((s.subrange(i + k, i + k + n), i + k + n))
        } else {
            None
        },
        None => None,
    }
}

/// Where parsing resumes after an unknown field whose length prefix starts
/// at `i`: the prefix is read as a byte count and that many bytes are
/// skipped, clamped to the end of `s`.
pub open spec fn skipped_to(s: Seq<u8>, i: int) -> Option<int> {
    match varint32_prefix(s.subrange(i, s.len() as int)) {
        Some((n, k)) => if i + k + n <= s.len() {
            Some(i + k + n)
        } else {
            Some(s.len() as int)
        },
        None => None,
    }
}

pub proof fn lemma_varint32_prefix_len(t: Seq<u8>)
    ensures
        varint32_prefix(t) matches Some((v, n)) ==> 1 <= n <= t.len(),
{
    lemma_varint_len_beyond(t, 0);
}

/// Decoding of the fields of one location from position `i` on, with the id
/// and path read so far; a later field of the same number replaces an
/// earlier one.
pub open spec fn location_fields(s: Seq<u8>, i: int, id: Seq<char>, path: Seq<char>) -> Result<
    LocationView,
    DecodeError,
>
    decreases s.len() - i,
{
    if i < 0 || i >= s.len() {
        Ok((id, path))
    } else if s[i] == 0x0A || s[i] == 0x12 {
        proof {
            lemma_varint32_prefix_len(s.subrange(i + 1, s.len() as int));
        }
        match delimited_at(s, i + 1) {
            None => Err(DecodeError::Malformed),
            Some((p, j)) => if !valid_utf8(p) {
                Err(DecodeError::InvalidUtf8(utf8_failure(p)))
            } else if s[i] == 0x0A {
                location_fields(s, j, decode_utf8(p), path)
            } else {
                location_fields(s, j, id, decode_utf8(p))
            },
        }
    } else {
        proof {
            lemma_varint32_prefix_len(s.subrange(i + 1, s.len() as int));
        }
        match skipped_to(s, i + 1) {
            None => Err(DecodeError::Malformed),
            Some(j) => location_fields(s, j, id, path),
        }
    }
}

/// Decoding of one location record: absent fields are empty.
pub open spec fn parse_location(s: Seq<u8>) -> Result<LocationView, DecodeError> {
    location_fields(s, 0, Seq::empty(), Seq::empty())
}

/// Decoding of the location records of a request from position `i` on,
/// appended to `acc`: field 1 holds a location, other fields are skipped.
pub open spec fn locations_from(s: Seq<u8>, i: int, acc: Seq<LocationView>) -> Result<
    Seq<LocationView>,
    DecodeError,
>
    decreases s.len() - i,
{
    if i < 0 || i >= s.len() {
        Ok(acc)
    } else if s[i] == 0x0A {
        proof {
            lemma_varint32_prefix_len(s.subrange(i + 1, s.len() as int));
        }
        match delimited_at(s, i + 1) {
            None => Err(DecodeError::Malformed),
            Some((p, j)) => match parse_location(p) {
                Err(e) => Err(e),
                Ok(l) => locations_from(s, j, acc.push(l)),
            },
        }
    } else {
        proof {
            lemma_varint32_prefix_len(s.subrange(i + 1, s.len() as int));
        }
        match skipped_to(s, i + 1) {
            None => Err(DecodeError::Malformed),
            Some(j) => locations_from(s, j, acc),
        }
    }
}

/// Decoding of the location list of a delete or size request.
pub open spec fn parse_locations(s: Seq<u8>) -> Result<Seq<LocationView>, DecodeError> {
    locations_from(s, 0, Seq::empty())
}

// ---------------------------------------------------------------------------
// Executable encoders and decoders.
// ---------------------------------------------------------------------------

/// A count or length reduced to the 32 bits the framing stores.
fn length_field(n: usize) -> (r: u32)
    ensures
        r == len32(n as nat),
{
    ((n as u64) % 0x1_0000_0000) as u32
}

/// Appends `t` as a text field.
pub fn push_text_record(out: &mut Vec<u8>, t: &str)
    ensures
        final(out)@ == old(out)@ + text_record(t@),
{
    let bytes = t.as_bytes();
    push_le32(out, length_field(bytes.len()));
    push_bytes(out, bytes);
    assert(out@ =~= old(out)@ + text_record(t@));
}

/// Reads the length-delimited field whose length prefix starts at `pos`.
fn read_delimited(data: &[u8], pos: usize) -> (r: Option<(usize, usize)>)
    requires
        pos <= data@.len(),
    ensures
        match delimited_at(data@, pos as int) {
            Some((p, j)) => r matches Some((a, b)) && a <= b <= data@.len() && b == j && p
                == data@.subrange(a as int, b as int),
            None => r is None,
        },
{
    proof {
        lemma_varint32_prefix_len(data@.subrange(pos as int, data@.len() as int));
    }
    match read_varint32(data, pos) {
        None => None,
        Some((n, next)) => {
            if n as usize > data.len() - next {
                None
            } else {
                Some((next, next + n as usize))
            }
        },
    }
}

/// Where parsing resumes after an unknown field whose length prefix starts
/// at `pos`.
fn skip_field(data: &[u8], pos: usize) -> (r: Option<usize>)
    requires
        pos <= data@.len(),
    ensures
        r == match skipped_to(data@, pos as int) {
            Some(j) => Some(j as usize),
            None => None,
        },
        r matches Some(j) ==> j <= data@.len(),
{
    proof {
        lemma_varint32_prefix_len(data@.subrange(pos as int, data@.len() as int));
    }
    match read_varint32(data, pos) {
        None => None,
        Some((n, next)) => {
            if n as usize > data.len() - next {
                Some(data.len())
            } else {
                Some(next + n as usize)
            }
        },
    }
}

/// Decodes one location record.
pub fn decode_location(data: &[u8]) -> (r: Result<RecordDataLocation, DecodeError>)
    ensures
        match parse_location(data@) {
            Ok(l) => r matches Ok(loc) && loc@ == l,
            Err(e) => r == Err::<RecordDataLocation, DecodeError>(e),
        },
{
    let mut id = String::new();
    let mut path = String::new();
    let mut pos: usize = 0;
    while pos < data.len()
        invariant
            pos <= data@.len(),
            location_fields(data@, pos as int, id@, path@) == parse_location(data@),
        decreases data@.len() - pos,
    {
        let tag = data[pos];
        proof {
            lemma_varint32_prefix_len(data@.subrange(pos + 1, data@.len() as int));
        }
        if tag == 0x0A || tag == 0x12 {
            match read_delimited(data, pos + 1) {
                None => {
                    return Err(DecodeError::Malformed);
                },
                Some((a, b)) => {
                    let bytes = slice_to_vec(slice_subrange(data, a, b));
                    match string_from_utf8(bytes) {
                        Err(f) => {
                            return Err(DecodeError::InvalidUtf8(f));
                        },
                        Ok(text) => {
                            if tag == 0x0A {
                                id = text;
                            } else {
                                path = text;
                            }
                            pos = b;
                        },
                    }
                },
            }
        } else {
            match skip_field(data, pos + 1) {
                None => {
                    return Err(DecodeError::Malformed);
                },
                Some(j) => {
                    pos = j;
                },
            }
        }
    }
    Ok(RecordDataLocation { id, path })
}

/// Decodes the location list of a delete or size request.
pub fn decode_locations(data: &[u8]) -> (r: Result<Vec<RecordDataLocation>, DecodeError>)
    ensures
        match parse_locations(data@) {
            Ok(ls) => r matches Ok(v) && locations_view(v@) == ls,
            Err(e) => r == Err::<Vec<RecordDataLocation>, DecodeError>(e),
        },
{
    let mut loc: Vec<RecordDataLocation> = Vec::new();
    let mut pos: usize = 0;
    assert(locations_view(loc@) =~= Seq::<LocationView>::empty());
    while pos < data.len()
        invariant
            pos <= data@.len(),
            locations_from(data@, pos as int, locations_view(loc@)) == parse_locations(data@),
        decreases data@.len() - pos,
    {
        let tag = data[pos];
        proof {
            lemma_varint32_prefix_len(data@.subrange(pos + 1, data@.len() as int));
        }
        if tag == 0x0A {
            match read_delimited(data, pos + 1) {
                None => {
                    return Err(DecodeError::Malformed);
                },
                Some((a, b)) => {
                    match decode_location(slice_subrange(data, a, b)) {
                        Err(e) => {
                            return Err(e);
                        },
                        Ok(l) => {
                            let ghost before = loc@;
                            loc.push(l);
                            assert(locations_view(loc@) =~= locations_view(before).push(l@));
                            pos = b;
                        },
                    }
                },
            }
        } else {
            match skip_field(data, pos + 1) {
                None => {
                    return Err(DecodeError::Malformed);
                },
                Some(j) => {
                    pos = j;
                },
            }
        }
    }
    Ok(loc)
}

/// Appends a list of locations in the compact framing.
fn push_location_list(out: &mut Vec<u8>, loc: &Vec<RecordDataLocation>)
    ensures
        final(out)@ == old(out)@ + location_list_bytes(locations_view(loc@)),
{
    let ghost ls = locations_view(loc@);
    let ghost f = |l: LocationView| location_record(l);
    let ghost start = out@;
    push_le32(out, length_field(loc.len()));
    let mut i: usize = 0;
    while i < loc.len()
        invariant
            i <= loc@.len(),
            ls == locations_view(loc@),
            f == (|l: LocationView| location_record(l)),
            out@ == start + le32_bytes(len32(ls.len())) + concat_map(ls.take(i as int), f),
        decreases loc@.len() - i,
    {
        proof {
            lemma_concat_map_push(ls, f, i as int);
        }
        push_text_record(out, loc[i].id.as_str());
        push_text_record(out, loc[i].path.as_str());
        assert(out@ =~= start + le32_bytes(len32(ls.len())) + concat_map(ls.take(i + 1), f));
        i = i + 1;
    }
    assert(ls.take(loc@.len() as int) =~= ls);
}

impl VersionRequest {
    /// Encodes the request: it has no fields, so the encoding is empty.
    pub fn serialize(&self) -> (r: Vec<u8>)
        ensures
            r@ == Seq::<u8>::empty(),
    {
        Vec::new()
    }

    /// Decodes the request; any bytes are accepted.
    pub fn deserialize(_data: &[u8]) -> (r: Result<VersionRequest, DecodeError>)
        ensures
            r is Ok,
    {
        Ok(VersionRequest)
    }
}

impl VersionReply {
    /// The version of this build: release 2025-06-11 14:01, messaging API
    /// 1.1.0, component 1.0.0.
    pub fn new() -> (r: VersionReply)
        ensures
            r == (VersionReply {
                release_year: 2025,
                release_month: 6,
                release_day: 11,
                release_hour: 14,
                release_minute: 1,
                api_major: 1,
                api_minor: 1,
                api_patch: 0,
                component_major: 1,
                component_minor: 0,
                component_patch: 0,
            }),
    {
        VersionReply {
            release_year: 2025,
            release_month: 6,
            release_day: 11,
            release_hour: 14,
            release_minute: 1,
            api_major: 1,
            api_minor: 1,
            api_patch: 0,
            component_major: 1,
            component_minor: 0,
            component_patch: 0,
        }
    }

    /// Encodes the eleven fields as 32-bit little-endian values.
    pub fn serialize(&self) -> (r: Vec<u8>)
        ensures
            r@ == version_reply_bytes(*self),
    {
        let fields: [u32; 11] = [
            self.release_year,
            self.release_month,
            self.release_day,
            self.release_hour,
            self.release_minute,
            self.api_major,
            self.api_minor,
            self.api_patch,
            self.component_major,
            self.component_minor,
            self.component_patch,
        ];
        let ghost fs = version_fields(*self);
        let ghost f = |x: u32| le32_bytes(x);
        assert(fields@ =~= fs);
        let mut data: Vec<u8> = Vec::new();
        let mut i: usize = 0;
        while i < 11
            invariant
                i <= 11,
                fields@ == fs,
                fs.len() == 11,
                f == (|x: u32| le32_bytes(x)),
                data@ == concat_map(fs.take(i as int), f),
            decreases 11 - i,
        {
            proof {
                lemma_concat_map_push(fs, f, i as int);
            }
            push_le32(&mut data, fields[i]);
            i = i + 1;
        }
        assert(fs.take(11) =~= fs);
        data
    }

    /// Decodes the first 44 bytes; shorter input is rejected.
    pub fn deserialize(data: &[u8]) -> (r: Result<VersionReply, DecodeError>)
        ensures
            r == parse_version_reply(data@),
    {
        if data.len() < 44 {
            return Err(DecodeError::TooShort);
        }
        let r = VersionReply {
            release_year: read_le32(data, 0),
            release_month: read_le32(data, 4),
            release_day: read_le32(data, 8),
            release_hour: read_le32(data, 12),
            release_minute: read_le32(data, 16),
            api_major: read_le32(data, 20),
            api_minor: read_le32(data, 24),
            api_patch: read_le32(data, 28),
            component_major: read_le32(data, 32),
            component_minor: read_le32(data, 36),
            component_patch: read_le32(data, 40),
        };
        assert(data@.skip(0) =~= data@);
        Ok(r)
    }
}

impl RepoDataDeleteRequest {
    /// Encodes the locations in the compact framing.
    pub fn serialize(&self) -> (r: Vec<u8>)
        ensures
            r@ == location_list_bytes(self@),
    {
        let mut data: Vec<u8> = Vec::new();
        push_location_list(&mut data, &self.loc);
        assert(data@ =~= location_list_bytes(self@));
        data
    }

    /// Decodes the protocol-buffer location list sent by clients.
    pub fn deserialize(data: &[u8]) -> (r: Result<RepoDataDeleteRequest, DecodeError>)
        ensures
            match parse_locations(data@) {
                Ok(ls) => r matches Ok(req) && req@ == ls,
                Err(e) => r is Err && r->Err_0 == e,
            },
    {
        match decode_locations(data) {
            Ok(loc) => Ok(RepoDataDeleteRequest { loc }),
            Err(e) => Err(e),
        }
    }
}

impl RepoDataGetSizeRequest {
    /// Encodes the locations in the compact framing.
    pub fn serialize(&self) -> (r: Vec<u8>)
        ensures
            r@ == location_list_bytes(self@),
    {
        let mut data: Vec<u8> = Vec::new();
        push_location_list(&mut data, &self.loc);
        assert(data@ =~= location_list_bytes(self@));
        data
    }

    /// Decodes the protocol-buffer location list sent by clients.
    pub fn deserialize(data: &[u8]) -> (r: Result<RepoDataGetSizeRequest, DecodeError>)
        ensures
            match parse_locations(data@) {
                Ok(ls) => r matches Ok(req) && req@ == ls,
                Err(e) => r is Err && r->Err_0 == e,
            },
    {
        match decode_locations(data) {
            Ok(loc) => Ok(RepoDataGetSizeRequest { loc }),
            Err(e) => Err(e),
        }
    }
}

/// Decodes a single-path request body.
fn decode_path_record(data: &[u8]) -> (r: Result<String, DecodeError>)
    ensures
        match parse_path_record(data@) {
            Ok(p) => r matches Ok(s) && s@ == p,
            Err(e) => r is Err && r->Err_0 == e,
        },
{
    if data.len() < 4 {
        return Err(DecodeError::TooShort);
    }
    let n = read_le32(data, 0);
    assert(data@.skip(0) =~= data@);
    if n as usize > data.len() - 4 {
        return Err(DecodeError::Malformed);
    }
    let bytes = slice_to_vec(slice_subrange(data, 4, 4 + n as usize));
    match string_from_utf8(bytes) {
        Err(f) => Err(DecodeError::InvalidUtf8(f)),
        Ok(path) => Ok(path),
    }
}

impl RepoPathCreateRequest {
    /// Encodes the path as a text field.
    pub fn serialize(&self) -> (r: Vec<u8>)
        ensures
            r@ == text_record(self@),
    {
        let mut data: Vec<u8> = Vec::new();
        push_text_record(&mut data, self.path.as_str());
        assert(data@ =~= text_record(self@));
        data
    }

    /// Decodes a path written as a text field.
    pub fn deserialize(data: &[u8]) -> (r: Result<RepoPathCreateRequest, DecodeError>)
        ensures
            match parse_path_record(data@) {
                Ok(p) => r matches Ok(req) && req@ == p,
                Err(e) => r is Err && r->Err_0 == e,
            },
    {
        match decode_path_record(data) {
            Ok(path) => Ok(RepoPathCreateRequest { path }),
            Err(e) => Err(e),
        }
    }
}

impl RepoPathDeleteRequest {
    /// Encodes the path as a text field.
    pub fn serialize(&self) -> (r: Vec<u8>)
        ensures
            r@ == text_record(self@),
    {
        let mut data: Vec<u8> = Vec::new();
        push_text_record(&mut data, self.path.as_str());
        assert(data@ =~= text_record(self@));
        data
    }

    /// Decodes a path written as a text field.
    pub fn deserialize(data: &[u8]) -> (r: Result<RepoPathDeleteRequest, DecodeError>)
        ensures
            match parse_path_record(data@) {
                Ok(p) => r matches Ok(req) && req@ == p,
                Err(e) => r is Err && r->Err_0 == e,
            },
    {
        match decode_path_record(data) {
            Ok(path) => Ok(RepoPathDeleteRequest { path }),
            Err(e) => Err(e),
        }
    }
}

impl RepoDataSizeReply {
    /// Encodes the record sizes in the compact framing.
    pub fn serialize(&self) -> (r: Vec<u8>)
        ensures
            r@ == size_list_bytes(self@),
    {
        let ghost rs = self@;
        let ghost f = |r: SizeView| size_record(r);
        let mut data: Vec<u8> = Vec::new();
        push_le32(&mut data, length_field(self.size.len()));
        let mut i: usize = 0;
        while i < self.size.len()
            invariant
                i <= self.size@.len(),
                rs == sizes_view(self.size@),
                f == (|r: SizeView| size_record(r)),
                data@ == le32_bytes(len32(rs.len())) + concat_map(rs.take(i as int), f),
            decreases self.size@.len() - i,
        {
            proof {
                lemma_concat_map_push(rs, f, i as int);
            }
            push_text_record(&mut data, self.size[i].id.as_str());
            push_le64(&mut data, self.size[i].size);
            assert(data@ =~= le32_bytes(len32(rs.len())) + concat_map(rs.take(i + 1), f));
            i = i + 1;
        }
        assert(rs.take(self.size@.len() as int) =~= rs);
        data
    }

    /// Decodes record sizes written in the compact framing.
    pub fn deserialize(data: &[u8]) -> (r: Result<RepoDataSizeReply, DecodeError>)
        ensures
            match parse_size_reply(data@) {
                Ok(rs) => r matches Ok(reply) && reply@ == rs,
                Err(e) => r is Err && r->Err_0 == e,
            },
    {
        if data.len() < 4 {
            return Err(DecodeError::TooShort);
        }
        let count = read_le32(data, 0);
        assert(data@.skip(0) =~= data@);
        let mut size: Vec<RecordDataSize> = Vec::new();
        let mut offset: usize = 4;
        assert(sizes_view(size@) =~= Seq::<SizeView>::empty());
        let mut k: u32 = 0;
        while k < count
            invariant
                k <= count,
                4 <= offset <= data@.len(),
                count == le32_value(data@),
                data@.len() >= 4,
                size_records_from(data@, offset as int, (count - k) as nat, sizes_view(size@))
                    == parse_size_reply(data@),
            decreases count - k,
        {
            if data.len() - offset < 4 {
                return Err(DecodeError::Malformed);
            }
            let n = read_le32(data, offset);
            if n as usize > data.len() - offset - 4 {
                return Err(DecodeError::Malformed);
            }
            let start = offset + 4;
            let end = start + n as usize;
            let bytes = slice_to_vec(slice_subrange(data, start, end));
            let id = match string_from_utf8(bytes) {
                Err(f) => {
                    return Err(DecodeError::InvalidUtf8(f));
                },
                Ok(id) => id,
            };
            if data.len() - end < 8 {
                return Err(DecodeError::Malformed);
            }
            let value = read_le64(data, end);
            let ghost before = size@;
            size.push(RecordDataSize { id, size: value });
            assert(sizes_view(size@) =~= sizes_view(before).push(size@.last()@));
            offset = end + 8;
            k = k + 1;
        }
        Ok(RepoDataSizeReply { size })
    }
}

// ---------------------------------------------------------------------------
// Laws of the compact framing.
// ---------------------------------------------------------------------------

proof fn lemma_le32_list(xs: Seq<u32>, rest: Seq<u8>, k: int)
    requires
        0 <= k < xs.len(),
    ensures
        le32_value((concat_map(xs, |x: u32| le32_bytes(x)) + rest).skip(4 * k)) == xs[k],
    decreases k,
{
    let f = |x: u32| le32_bytes(x);
    let b = concat_map(xs, f) + rest;
    assert(b =~= le32_bytes(xs[0]) + (concat_map(xs.drop_first(), f) + rest));
    if k == 0 {
        assert(b.skip(0) =~= b);
        lemma_le32_roundtrip(xs[0], concat_map(xs.drop_first(), f) + rest);
    } else {
        lemma_le32_list(xs.drop_first(), rest, k - 1);
        lemma_le32_list_len(xs.drop_first());
        assert(b.skip(4 * k) =~= (concat_map(xs.drop_first(), f) + rest).skip(4 * (k - 1)));
    }
}

proof fn lemma_le32_list_len(xs: Seq<u32>)
    ensures
        concat_map(xs, |x: u32| le32_bytes(x)).len() == 4 * xs.len(),
    decreases xs.len(),
{
    if xs.len() > 0 {
        lemma_le32_list_len(xs.drop_first());
    }
}

/// The compact framing of a location list is the 32-bit count followed, for
/// each location in order, by the 32-bit UTF-8 length of its id, the id's
/// bytes, the 32-bit UTF-8 length of its path and the path's bytes: the
/// bytes after the count open with the first location's id, and what
/// follows its path is the framing of the other locations without their
/// count.
pub proof fn lemma_location_list_layout(ls: Seq<LocationView>)
    ensures
        location_list_bytes(ls).take(4) == le32_bytes(len32(ls.len())),
        ls.len() == 0 ==> location_list_bytes(ls).len() == 4,
        ls.len() > 0 ==> location_list_bytes(ls).skip(4) == le32_bytes(
            len32(encode_utf8(ls[0].0).len()),
        ) + encode_utf8(ls[0].0) + le32_bytes(len32(encode_utf8(ls[0].1).len())) + encode_utf8(
            ls[0].1,
        ) + location_list_bytes(ls.drop_first()).skip(4),
{
    let f = |l: LocationView| location_record(l);
    let b = location_list_bytes(ls);
    assert(b.take(4) =~= le32_bytes(len32(ls.len())));
    if ls.len() > 0 {
        let rest = location_list_bytes(ls.drop_first());
        assert(rest.skip(4) =~= concat_map(ls.drop_first(), f));
        assert(b.skip(4) =~= le32_bytes(len32(encode_utf8(ls[0].0).len())) + encode_utf8(ls[0].0)
            + le32_bytes(len32(encode_utf8(ls[0].1).len())) + encode_utf8(ls[0].1) + rest.skip(4));
    }
}

/// Decoding the encoding of a version reply gives the reply back.
pub proof fn lemma_version_reply_roundtrip(v: VersionReply)
    ensures
        parse_version_reply(version_reply_bytes(v)) == Ok::<VersionReply, DecodeError>(v),
{
    let fs = version_fields(v);
    let b = version_reply_bytes(v);
    let e = Seq::<u8>::empty();
    assert(b + e =~= b);
    lemma_le32_list_len(fs);
    lemma_le32_list(fs, e, 0);
    lemma_le32_list(fs, e, 1);
    lemma_le32_list(fs, e, 2);
    lemma_le32_list(fs, e, 3);
    lemma_le32_list(fs, e, 4);
    lemma_le32_list(fs, e, 5);
    lemma_le32_list(fs, e, 6);
    lemma_le32_list(fs, e, 7);
    lemma_le32_list(fs, e, 8);
    lemma_le32_list(fs, e, 9);
    lemma_le32_list(fs, e, 10);
    assert(b.skip(0) =~= b);
    assert(version_reply_at(b) == v);
}

/// Decoding a path written as a text field gives the path back, for paths
/// whose UTF-8 form is shorter than 2^32 bytes.
pub proof fn lemma_path_record_roundtrip(p: Seq<char>, rest: Seq<u8>)
    requires
        encode_utf8(p).len() < 0x1_0000_0000,
    ensures
        parse_path_record(text_record(p) + rest) == Ok::<Seq<char>, DecodeError>(p),
{
    let e = encode_utf8(p);
    let s = text_record(p) + rest;
    assert(len32(e.len()) == e.len());
    assert(s =~= le32_bytes(len32(e.len())) + (e + rest));
    lemma_le32_roundtrip(len32(e.len()), e + rest);
    assert(s.subrange(4, 4 + e.len() as int) =~= e);
}

/// Decoding `rs.len()` records from position `i`, where the bytes of the
/// records lie, appends exactly those records.
#[verifier::spinoff_prover]
#[verifier::rlimit(40)]
pub proof fn lemma_size_records_roundtrip(s: Seq<u8>, i: int, rs: Seq<SizeView>, acc: Seq<SizeView>)
    requires
        0 <= i,
        i + concat_map(rs, |r: SizeView| size_record(r)).len() <= s.len(),
        s.subrange(i, i + concat_map(rs, |r: SizeView| size_record(r)).len())
            == concat_map(rs, |r: SizeView| size_record(r)),
        forall|k: int| 0 <= k < rs.len() ==> encode_utf8(#[trigger] rs[k].0).len() < 0x1_0000_0000,
    ensures
        size_records_from(s, i, rs.len(), acc) == Ok::<Seq<SizeView>, DecodeError>(acc + rs),
    decreases rs.len(),
{
    let f = |r: SizeView| size_record(r);
    if rs.len() == 0 {
        assert(acc + rs =~= acc);
    } else {
        let r0 = rs[0];
        let tail = rs.drop_first();
        let e = encode_utf8(r0.0);
        let n = e.len();
        let cm = concat_map(rs, f);
        let ct = concat_map(tail, f);
        assert(encode_utf8(rs[0].0).len() < 0x1_0000_0000);
        assert(len32(n) == n);
        assert(cm =~= le32_bytes(len32(n)) + e + le64_bytes(r0.1) + ct);
        assert(s.skip(i) =~= le32_bytes(len32(n)) + s.skip(i + 4)) by {
            assert forall|k: int| 0 <= k < 4 implies s.skip(i)[k] == le32_bytes(len32(n))[k] by {
                assert(s.subrange(i, i + cm.len())[k] == cm[k]);
            }
        }
        lemma_le32_roundtrip(len32(n), s.skip(i + 4));
        assert(s.subrange(i + 4, i + 4 + n) =~= e) by {
            assert forall|k: int| 0 <= k < n implies s.subrange(i + 4, i + 4 + n)[k] == e[k] by {
                assert(s.subrange(i, i + cm.len())[4 + k] == cm[4 + k]);
            }
        }
        assert(s.skip(i + 4 + n) =~= le64_bytes(r0.1) + s.skip(i + 4 + n + 8)) by {
            assert forall|k: int| 0 <= k < 8 implies s.skip(i + 4 + n)[k] == le64_bytes(r0.1)[k] by {
                assert(s.subrange(i, i + cm.len())[4 + n + k] == cm[4 + n + k]);
            }
        }
        lemma_le_roundtrip(0, 0, r0.1, s.skip(i + 4 + n + 8));
        let j = i + 4 + n + 8;
        assert(s.subrange(j, j + ct.len()) =~= ct) by {
            assert forall|k: int| 0 <= k < ct.len() implies s.subrange(j, j + ct.len())[k] == ct[k] by {
                assert(s.subrange(i, i + cm.len())[4 + n + 8 + k] == cm[4 + n + 8 + k]);
            }
        }
        assert forall|k: int| 0 <= k < tail.len() implies encode_utf8(#[trigger] tail[k].0).len()
            < 0x1_0000_0000 by {
            assert(tail[k] == rs[k + 1]);
        }
        assert(valid_utf8(e));
        lemma_size_records_roundtrip(s, j, tail, acc.push(r0));
        assert(acc.push(r0) + tail =~= acc + rs);
        assert(r0 == (decode_utf8(e), r0.1));
    }
}

/// Decoding the encoding of a size reply gives the records back, when there
/// are fewer than 2^32 of them and each id is shorter than 2^32 bytes.
pub proof fn lemma_size_reply_roundtrip(rs: Seq<SizeView>)
    requires
        rs.len() < 0x1_0000_0000,
        forall|k: int| 0 <= k < rs.len() ==> encode_utf8(#[trigger] rs[k].0).len() < 0x1_0000_0000,
    ensures
        parse_size_reply(size_list_bytes(rs)) == Ok::<Seq<SizeView>, DecodeError>(rs),
{
    let f = |r: SizeView| size_record(r);
    let s = size_list_bytes(rs);
    let cm = concat_map(rs, f);
    assert(len32(rs.len()) == rs.len());
    lemma_le32_roundtrip(len32(rs.len()), cm);
    assert(s.subrange(4, 4 + cm.len() as int) =~= cm);
    lemma_size_records_roundtrip(s, 4, rs, Seq::empty());
    assert(Seq::<SizeView>::empty() + rs =~= rs);
}

// ---------------------------------------------------------------------------
// Laws of the protocol-buffer location lists.
// ---------------------------------------------------------------------------

/// A text as a protocol-buffer length-delimited field with the one-byte
/// key `key`: the key, the varint UTF-8 length, then the bytes.
pub open spec fn pb_text_field(key: u8, t: Seq<char>) -> Seq<u8> {
    seq![key] + varint_bytes(encode_utf8(t).len()) + encode_utf8(t)
}

/// A location as a protocol-buffer message: field 1 its id, field 2 its
/// path.
pub open spec fn pb_location(l: LocationView) -> Seq<u8> {
    pb_text_field(0x0A, l.0) + pb_text_field(0x12, l.1)
}

/// A location as field 1 of a request: the key, the varint length of the
/// nested message, then the message.
pub open spec fn pb_location_entry(l: LocationView) -> Seq<u8> {
    seq![0x0Au8] + varint_bytes(pb_location(l).len()) + pb_location(l)
}

/// A list of locations as a protocol-buffer request: one field 1 entry
/// per location, in order.
pub open spec fn pb_location_list(ls: Seq<LocationView>) -> Seq<u8> {
    concat_map(ls, |l: LocationView| pb_location_entry(l))
}

/// The location can be written as a protocol-buffer message whose lengths
/// the 32-bit length reader takes.
pub open spec fn pb_location_fits(l: LocationView) -> bool {
    &&& encode_utf8(l.0).len() < 0x1_0000_0000
    &&& encode_utf8(l.1).len() < 0x1_0000_0000
    &&& pb_location(l).len() < 0x1_0000_0000
}

/// Where the bytes at `i` hold a varint length of `p` followed by `p`, the
/// length-delimited field read there is `p`.
proof fn lemma_delimited_at_encoded(s: Seq<u8>, i: int, p: Seq<u8>)
    requires
        0 <= i,
        p.len() < 0x1_0000_0000,
        i + varint_bytes(p.len()).len() + p.len() <= s.len(),
        s.subrange(i, i + varint_bytes(p.len()).len() + p.len()) == varint_bytes(p.len()) + p,
    ensures
        delimited_at(s, i) == Some((p, i + varint_bytes(p.len()).len() + p.len())),
{
    let n = p.len();
    let v = varint_bytes(n);
    let k = v.len() as int;
    let rest = s.subrange(i + k, s.len() as int);
    let t = s.subrange(i, s.len() as int);
    assert(t =~= v + rest) by {
        assert forall|j: int| 0 <= j < t.len() implies t[j] == (v + rest)[j] by {
            if j < k {
                assert(s.subrange(i, i + k + n)[j] == (v + p)[j]);
            }
        }
    }
    assert((n as u32) as nat == n);
    lemma_varint32_roundtrip(n as u32, rest);
    assert(s.subrange(i + k, i + k + n) =~= p) by {
        assert forall|j: int| 0 <= j < n implies s.subrange(i + k, i + k + n)[j] == p[j] by {
            assert(s.subrange(i, i + k + n)[k + j] == (v + p)[k + j]);
        }
    }
}

/// Decoding a location written as a protocol-buffer message gives the
/// location back.
pub proof fn lemma_pb_location_roundtrip(l: LocationView)
    requires
        pb_location_fits(l),
    ensures
        parse_location(pb_location(l)) == Ok::<LocationView, DecodeError>(l),
{
    let s = pb_location(l);
    let e1 = encode_utf8(l.0);
    let e2 = encode_utf8(l.1);
    let f1 = pb_text_field(0x0A, l.0);
    let f2 = pb_text_field(0x12, l.1);
    let k1 = varint_bytes(e1.len()).len() as int;
    let k2 = varint_bytes(e2.len()).len() as int;
    let m = f1.len() as int;
    assert(s[0] == 0x0A);
    assert(s.subrange(1, 1 + k1 + e1.len()) =~= varint_bytes(e1.len()) + e1);
    lemma_delimited_at_encoded(s, 1, e1);
    assert(s[m] == 0x12);
    assert(s.subrange(m + 1, m + 1 + k2 + e2.len()) =~= varint_bytes(e2.len()) + e2);
    lemma_delimited_at_encoded(s, m + 1, e2);
    assert(m + 1 + k2 + e2.len() == s.len());
    assert(location_fields(s, s.len() as int, l.0, l.1) == Ok::<LocationView, DecodeError>(l));
    assert(location_fields(s, m, l.0, Seq::empty()) == Ok::<LocationView, DecodeError>(l));
    assert(location_fields(s, 0, Seq::empty(), Seq::empty()) == Ok::<LocationView, DecodeError>(l));
}

/// Decoding from position `i`, where the rest of the bytes is the
/// protocol-buffer form of `ls`, appends exactly those locations.
proof fn lemma_pb_locations_from(s: Seq<u8>, i: int, ls: Seq<LocationView>, acc: Seq<LocationView>)
    requires
        0 <= i <= s.len(),
        s.subrange(i, s.len() as int) == pb_location_list(ls),
        forall|k: int| 0 <= k < ls.len() ==> pb_location_fits(#[trigger] ls[k]),
    ensures
        locations_from(s, i, acc) == Ok::<Seq<LocationView>, DecodeError>(acc + ls),
    decreases ls.len(),
{
    let f = |l: LocationView| pb_location_entry(l);
    if ls.len() == 0 {
        assert(acc + ls =~= acc);
        assert(s.subrange(i, s.len() as int).len() == 0);
    } else {
        let l0 = ls[0];
        let tail = ls.drop_first();
        let p = pb_location(l0);
        let k = varint_bytes(p.len()).len() as int;
        let t = s.subrange(i, s.len() as int);
        assert(pb_location_fits(ls[0]));
        assert(t =~= pb_location_entry(l0) + pb_location_list(tail));
        assert(s[i] == t[0]);
        assert(s.subrange(i + 1, i + 1 + k + p.len()) =~= varint_bytes(p.len()) + p) by {
            assert forall|j: int| 0 <= j < k + p.len() implies s.subrange(i + 1, i + 1 + k + p.len())[j]
                == (varint_bytes(p.len()) + p)[j] by {
                assert(t[1 + j] == s[i + 1 + j]);
            }
        }
        lemma_delimited_at_encoded(s, i + 1, p);
        lemma_pb_location_roundtrip(l0);
        let j = i + 1 + k + p.len();
        assert(s.subrange(j, s.len() as int) =~= pb_location_list(tail)) by {
            assert forall|x: int| 0 <= x < s.len() - j implies s.subrange(j, s.len() as int)[x]
                == pb_location_list(tail)[x] by {
                assert(t[1 + k + p.len() + x] == s[j + x]);
            }
        }
        assert forall|x: int| 0 <= x < tail.len() implies pb_location_fits(#[trigger] tail[x]) by {
            assert(tail[x] == ls[x + 1]);
        }
        lemma_pb_locations_from(s, j, tail, acc.push(l0));
        assert(acc.push(l0) + tail =~= acc + ls);
    }
}

/// Decoding inverts the protocol-buffer encoding of a location list: the
/// locations come back exactly and in order, whatever the size of each
/// record's varint length, for locations whose lengths fit 32 bits.
pub proof fn lemma_pb_location_list_roundtrip(ls: Seq<LocationView>)
    requires
        forall|k: int| 0 <= k < ls.len() ==> pb_location_fits(#[trigger] ls[k]),
    ensures
        parse_locations(pb_location_list(ls)) == Ok::<Seq<LocationView>, DecodeError>(ls),
{
    let s = pb_location_list(ls);
    assert(s.subrange(0, s.len() as int) =~= s);
    lemma_pb_locations_from(s, 0, ls, Seq::empty());
    assert(Seq::<LocationView>::empty() + ls =~= ls);
}

} // verus!
