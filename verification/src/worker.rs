//! The decisions a request worker takes: how an inproc frame becomes an
//! envelope, how each request type is decoded and checked, which file
//! system work it asks for, and which reply goes back once that work is
//! done. The work itself and the sockets belong to the caller.

use vstd::prelude::*;
use vstd::string::*;
use vstd::slice::*;
use vstd::utf8::*;
use crate::message::message_types::{
    ACK_REPLY, NACK_REPLY, REPO_DATA_DELETE_REQUEST, REPO_DATA_GET_SIZE_REQUEST,
    REPO_DATA_SIZE_REPLY, REPO_PATH_CREATE_REQUEST, REPO_PATH_DELETE_REQUEST, VERSION_REPLY,
    VERSION_REQUEST,
};
use crate::message::{error_code_value, nack_bytes, ErrorCode, NackReply};
use crate::metrics::texts_view;
use crate::path_utils::{
    dangerous_message, outside_message, sanitized_local_path, within_base, PathSanitizer,
};
use crate::proto::{
    parse_locations, parse_path_record, size_list_bytes, version_reply_bytes, DecodeError,
    LocationView, RecordDataSize, RepoDataDeleteRequest, RepoDataGetSizeRequest,
    RepoDataSizeReply, RepoPathCreateRequest, SizeView, VersionReply,
};
use crate::text::{
    contains_seq, decimal, push_decimal, string_from_utf8, utf8_failure_message, utf8_failure_text,
};
use crate::version::CoreVersionInfo;
use crate::wire::le16_value;

verus! {

broadcast use {encode_utf8_valid_utf8, encode_utf8_decode_utf8};

/// A request as a worker sees it, with what its reply needs for routing.
#[derive(Debug, Clone)]
pub struct Envelope {
    pub correlation_id: String,
    pub msg_type: u16,
    pub payload: Vec<u8>,
    pub key: Option<String>,
    pub route: Option<String>,
    /// Context of the request, handed back with the reply.
    pub context: u16,
    /// The frame the request arrived in.
    pub original_request: Option<Vec<u8>>,
}

/// The endpoint a worker thread receives its requests on.
#[derive(Debug, Clone, Copy)]
pub struct ZMQInprocMessenger {
    worker_id: usize,
}

impl Default for ZMQInprocMessenger {
    /// The endpoint of worker 0.
    fn default() -> (r: ZMQInprocMessenger)
        ensures
            r.worker_id() == 0,
    {
        ZMQInprocMessenger::new(0)
    }
}

/// The payload a frame carries: the bytes after the two-byte type, less the
/// four-byte route count at the end when the frame is longer than six bytes.
pub open spec fn frame_payload(f: Seq<u8>) -> Seq<u8> {
    if f.len() > 6 {
        f.subrange(2, f.len() - 4)
    } else {
        f.subrange(2, f.len() as int)
    }
}

impl ZMQInprocMessenger {
    /// The endpoint of worker `worker_id`.
    pub fn new(worker_id: usize) -> (r: ZMQInprocMessenger)
        ensures
            r.worker_id() == worker_id,
    {
        ZMQInprocMessenger { worker_id }
    }

    /// The number of the worker this endpoint belongs to.
    pub closed spec fn worker_id(&self) -> usize {
        self.worker_id
    }

    /// The number of the worker this endpoint belongs to.
    pub fn id(&self) -> (r: usize)
        ensures
            r == self.worker_id(),
    {
        self.worker_id
    }

    /// Reads a received frame: `[type: u16 LE][payload][route count: u32 LE]`.
    /// An empty frame (a poll timeout) and a frame under four bytes give
    /// `None`. The route count is the frame's last four bytes, so no route
    /// follows it and the envelope has none.
    pub fn envelope_from_frame(&self, frame: &[u8], correlation_id: String, context: u16) -> (r:
        Option<Envelope>)
        ensures
            frame@.len() < 4 <==> r is None,
            r matches Some(env) ==> {
                &&& env.msg_type == le16_value(frame@)
                &&& env.payload@ == frame_payload(frame@)
                &&& env.correlation_id@ == correlation_id@
                &&& env.context == context
                &&& env.key is None
                &&& env.route is None
                &&& env.original_request matches Some(o) && o@ == frame@
            },
    {
        let n = frame.len();
        if n < 4 {
            return None;
        }
        let msg_type: u16 = frame[0] as u16 + 256 * (frame[1] as u16);
        let end = if n > 6 {
            n - 4
        } else {
            n
        };
        let payload = slice_to_vec(slice_subrange(frame, 2, end));
        let original = slice_to_vec(frame);
        Some(
            Envelope {
                correlation_id,
                msg_type,
                payload,
                key: None,
                route: None,
                context,
                original_request: Some(original),
            },
        )
    }
}


// ---------------------------------------------------------------------------
// Decoding of the request payloads.
// ---------------------------------------------------------------------------

/// The text given for a location list that does not decode.
pub open spec fn location_error_text(e: DecodeError) -> Seq<char> {
    match e {
        DecodeError::InvalidUtf8(f) => utf8_failure_text(f),
        _ => "Invalid protobuf data"@,
    }
}

/// The text given for a single-path body that does not decode.
pub open spec fn path_record_error_text(e: DecodeError) -> Seq<char> {
    match e {
        DecodeError::TooShort => "RepoPathCreateRequest data too short"@,
        DecodeError::InvalidUtf8(f) => utf8_failure_text(f),
        _ => "Invalid RepoPathCreateRequest data"@,
    }
}

/// The paths of the locations a delete or size request names, or the text
/// of why the body does not decode.
pub open spec fn location_paths(s: Seq<u8>) -> Result<Seq<Seq<char>>, Seq<char>> {
    if s.len() == 0 {
        Err("Empty payload"@)
    } else {
        match parse_locations(s) {
            Ok(ls) => Ok(ls.map_values(|l: LocationView| l.1)),
            Err(e) => Err(location_error_text(e)),
        }
    }
}

/// Whether `s` starts with a text field in its short form: the tag byte
/// `0x0A`, a one-byte length, and that many bytes of UTF-8.
pub open spec fn short_text_field(s: Seq<u8>) -> bool {
    &&& s.len() >= 2
    &&& s[0] == 0x0A
    &&& s.len() >= 2 + s[1]
    &&& valid_utf8(s.subrange(2, 2 + s[1]))
}

/// The path a path request names, or the text of why the body does not
/// decode: the short text-field form is tried first, then the path record.
pub open spec fn path_request_path(s: Seq<u8>) -> Result<Seq<char>, Seq<char>> {
    if s.len() == 0 {
        Err("Empty payload"@)
    } else if short_text_field(s) {
        Ok(decode_utf8(s.subrange(2, 2 + s[1])))
    } else {
        match parse_path_record(s) {
            Ok(p) => Ok(p),
            Err(e) => Err("Failed to parse RepoPathCreateRequest: "@ + path_record_error_text(e)),
        }
    }
}

fn location_error_message(e: DecodeError) -> (r: String)
    ensures
        r@ == location_error_text(e),
{
    match e {
        DecodeError::InvalidUtf8(f) => utf8_failure_message(f),
        _ => {
            proof {
                reveal_strlit("Invalid protobuf data");
            }
            "Invalid protobuf data".to_owned()
        },
    }
}

fn path_record_error_message(e: DecodeError) -> (r: String)
    ensures
        r@ == path_record_error_text(e),
{
    match e {
        DecodeError::TooShort => {
            proof {
                reveal_strlit("RepoPathCreateRequest data too short");
            }
            "RepoPathCreateRequest data too short".to_owned()
        },
        DecodeError::InvalidUtf8(f) => utf8_failure_message(f),
        _ => {
            proof {
                reveal_strlit("Invalid RepoPathCreateRequest data");
            }
            "Invalid RepoPathCreateRequest data".to_owned()
        },
    }
}

/// The paths of the locations in a delete request.
pub fn parse_delete_request(payload: &[u8]) -> (r: Result<Vec<String>, String>)
    ensures
        match location_paths(payload@) {
            Ok(ps) => r matches Ok(v) && texts_view(v@) == ps,
            Err(e) => r matches Err(m) && m@ == e,
        },
{
    if payload.len() == 0 {
        proof {
            reveal_strlit("Empty payload");
        }
        return Err("Empty payload".to_owned());
    }
    match RepoDataDeleteRequest::deserialize(payload) {
        Err(e) => Err(location_error_message(e)),
        Ok(req) => {
            let ghost ls = req@;
            let paths = location_path_list(&req.loc);
            Ok(paths)
        },
    }
}

/// The paths of the locations in a size request.
pub fn parse_size_request(payload: &[u8]) -> (r: Result<Vec<String>, String>)
    ensures
        match location_paths(payload@) {
            Ok(ps) => r matches Ok(v) && texts_view(v@) == ps,
            Err(e) => r matches Err(m) && m@ == e,
        },
{
    if payload.len() == 0 {
        proof {
            reveal_strlit("Empty payload");
        }
        return Err("Empty payload".to_owned());
    }
    match RepoDataGetSizeRequest::deserialize(payload) {
        Err(e) => Err(location_error_message(e)),
        Ok(req) => Ok(location_path_list(&req.loc)),
    }
}

fn location_path_list(locs: &Vec<crate::proto::RecordDataLocation>) -> (r: Vec<String>)
    ensures
        texts_view(r@) == crate::proto::locations_view(locs@).map_values(|l: LocationView| l.1),
{
    let mut paths: Vec<String> = Vec::new();
    let mut i: usize = 0;
    while i < locs.len()
        invariant
            i <= locs@.len(),
            texts_view(paths@) =~= crate::proto::locations_view(locs@).map_values(
                |l: LocationView| l.1,
            ).take(i as int),
        decreases locs@.len() - i,
    {
        let p = locs[i].path.clone();
        let ghost before = paths@;
        paths.push(p);
        proof {
            let lv = crate::proto::locations_view(locs@).map_values(|l: LocationView| l.1);
            assert(lv[i as int] == locs@[i as int].path@);
            assert(texts_view(paths@) =~= texts_view(before).push(p@));
            assert(lv.take(i + 1) =~= lv.take(i as int).push(lv[i as int]));
        }
        i = i + 1;
    }
    paths
}

/// The path named by a path create or delete request.
pub fn parse_path_request(payload: &[u8]) -> (r: Result<String, String>)
    ensures
        match path_request_path(payload@) {
            Ok(p) => r matches Ok(s) && s@ == p,
            Err(e) => r matches Err(m) && m@ == e,
        },
{
    if payload.len() == 0 {
        proof {
            reveal_strlit("Empty payload");
        }
        return Err("Empty payload".to_owned());
    }
    if payload.len() >= 2 && payload[0] == 0x0A {
        let length = payload[1] as usize;
        if payload.len() >= 2 + length {
            let bytes = slice_to_vec(slice_subrange(payload, 2, 2 + length));
            match string_from_utf8(bytes) {
                Ok(path) => {
                    return Ok(path);
                },
                Err(_) => {},
            }
        }
    }
    match RepoPathCreateRequest::deserialize(payload) {
        Ok(request) => Ok(request.path),
        Err(e) => {
            proof {
                reveal_strlit("Failed to parse RepoPathCreateRequest: ");
            }
            let mut m = "Failed to parse RepoPathCreateRequest: ".to_owned();
            let t = path_record_error_message(e);
            m.append(t.as_str());
            Err(m)
        },
    }
}


// ---------------------------------------------------------------------------
// What a request asks for.
// ---------------------------------------------------------------------------

/// A reply: its message type and encoded payload.
#[derive(Debug, Clone)]
pub struct WorkerReply {
    pub reply_type: u16,
    pub payload: Vec<u8>,
}

/// What a request needs next: a reply at once, or file system work whose
/// outcome decides the reply.
#[derive(Debug, Clone)]
pub enum WorkerStep {
    /// Send this reply.
    Reply(WorkerReply),
    /// Remove each of these files; `refused` paths were turned down before.
    RemoveFiles { targets: Vec<String>, refused: usize },
    /// Read the size of each `(request path, local path)`; `refused` paths
    /// were turned down before.
    MeasureFiles { targets: Vec<(String, String)>, refused: usize },
    /// Create this directory and its parents.
    CreateDirectory { local_path: String },
    /// Remove this directory and everything under it.
    RemoveDirectory { local_path: String },
}

/// A step with text as characters and lengths as numbers.
pub enum StepView {
    Reply(u16, Seq<u8>),
    RemoveFiles(Seq<Seq<char>>, nat),
    MeasureFiles(Seq<(Seq<char>, Seq<char>)>, nat),
    CreateDirectory(Seq<char>),
    RemoveDirectory(Seq<char>),
}

/// Character view of a list of `(request path, local path)` pairs.
pub open spec fn pairs_view(v: Seq<(String, String)>) -> Seq<(Seq<char>, Seq<char>)> {
    v.map_values(|e: (String, String)| (e.0@, e.1@))
}

impl View for WorkerStep {
    type V = StepView;

    open spec fn view(&self) -> StepView {
        match self {
            WorkerStep::Reply(r) => StepView::Reply(r.reply_type, r.payload@),
            WorkerStep::RemoveFiles { targets, refused } => StepView::RemoveFiles(
                texts_view(targets@),
                *refused as nat,
            ),
            WorkerStep::MeasureFiles { targets, refused } => StepView::MeasureFiles(
                pairs_view(targets@),
                *refused as nat,
            ),
            WorkerStep::CreateDirectory { local_path } => StepView::CreateDirectory(local_path@),
            WorkerStep::RemoveDirectory { local_path } => StepView::RemoveDirectory(local_path@),
        }
    }
}

/// Encoding of a negative acknowledgement with `code` and text `msg`.
pub open spec fn nack_payload(code: ErrorCode, msg: Seq<char>) -> Seq<u8> {
    nack_bytes(error_code_value(code), msg)
}

/// The step that answers at once with a negative acknowledgement.
pub open spec fn nack_step(code: ErrorCode, msg: Seq<char>) -> StepView {
    StepView::Reply(NACK_REPLY, nack_payload(code, msg))
}

/// Whether a mapped path passes the security check under the root `g`: it
/// lies within the root at a component boundary and holds neither `..` nor
/// `//`.
pub open spec fn security_ok(g: Seq<char>, p: Seq<char>) -> bool {
    within_base(p, g) && !contains_seq(p, ".."@) && !contains_seq(p, "//"@)
}

/// The text of the security refusal of a mapped path `p`.
pub open spec fn security_text(g: Seq<char>, p: Seq<char>) -> Seq<char> {
    "Security violation: path "@ + (if !within_base(p, g) {
        outside_message(p, g)
    } else {
        dangerous_message(p)
    }) + " is outside base root"@
}

/// The local path a request path is served from, when it maps onto the
/// collection and passes the security check.
pub open spec fn served_path(g: Seq<char>, path: Seq<char>) -> Option<Seq<char>> {
    match sanitized_local_path(g, path) {
        Some(p) => if security_ok(g, p) {
            Some(p)
        } else {
            None
        },
        None => None,
    }
}

/// The paths that are served, each with its local path, in request order.
pub open spec fn served_entries(g: Seq<char>, paths: Seq<Seq<char>>) -> Seq<(Seq<char>, Seq<char>)>
    decreases paths.len(),
{
    if paths.len() == 0 {
        Seq::empty()
    } else {
        let rest = served_entries(g, paths.drop_last());
        match served_path(g, paths.last()) {
            Some(p) => rest.push((paths.last(), p)),
            None => rest,
        }
    }
}

/// How many of the paths are turned down.
pub open spec fn refused_count(g: Seq<char>, paths: Seq<Seq<char>>) -> nat
    decreases paths.len(),
{
    if paths.len() == 0 {
        0
    } else {
        refused_count(g, paths.drop_last()) + if served_path(g, paths.last()) is Some {
            0nat
        } else {
            1nat
        }
    }
}

/// The local directory a path request is served from, or the negative
/// acknowledgement that turns it down.
pub open spec fn directory_check(g: Seq<char>, path: Seq<char>) -> Result<Seq<char>, StepView> {
    match sanitized_local_path(g, path) {
        None => Err(
            nack_step(ErrorCode::SecurityViolation, "Path sanitization failed: Invalid path: Empty path"@),
        ),
        Some(p) => if security_ok(g, p) {
            Ok(p)
        } else {
            Err(nack_step(ErrorCode::SecurityViolation, "Security violation: "@ + security_text(g, p)))
        },
    }
}

/// Whether two paths name the same place as `std::path::Path` compares
/// them: component by component.
pub uninterp spec fn same_path(a: Seq<char>, b: Seq<char>) -> bool;

/// Compares two paths with `std::path::Path`'s `==`.
///
/// Trusted: the result is `same_path` of the two texts, and a path equals
/// itself (`Path` is `Eq`). How components are compared is not stated.
#[verifier::external_body]
fn paths_equal(a: &str, b: &str) -> (r: bool)
    ensures
        r == same_path(a@, b@),
        a@ == b@ ==> r,
{
    std::path::Path::new(a) == std::path::Path::new(b)
}

/// The step that answers a request of type `t` with body `s`, for the
/// collection root `g` and what is known of the core server's version.
pub open spec fn request_step(g: Seq<char>, t: u16, s: Seq<u8>, info: CoreVersionInfo) -> StepView {
    if t == VERSION_REQUEST {
        StepView::Reply(
            VERSION_REPLY,
            version_reply_bytes(
                if info.is_connected {
                    info.version_reply
                } else {
                    VersionReply::spec_default()
                },
            ),
        )
    } else if t == REPO_DATA_DELETE_REQUEST {
        match location_paths(s) {
            Err(e) => nack_step(ErrorCode::ParseError, "Failed to parse delete request: "@ + e),
            Ok(ps) => StepView::RemoveFiles(
                served_entries(g, ps).map_values(|e: (Seq<char>, Seq<char>)| e.1),
                refused_count(g, ps),
            ),
        }
    } else if t == REPO_DATA_GET_SIZE_REQUEST {
        match location_paths(s) {
            Err(e) => nack_step(ErrorCode::ParseError, "Failed to parse size request: "@ + e),
            Ok(ps) => StepView::MeasureFiles(served_entries(g, ps), refused_count(g, ps)),
        }
    } else if t == REPO_PATH_CREATE_REQUEST {
        match path_request_path(s) {
            Err(e) => nack_step(ErrorCode::ParseError, "Failed to parse path create request: "@ + e),
            Ok(path) => match directory_check(g, path) {
                Err(step) => step,
                Ok(p) => StepView::CreateDirectory(p),
            },
        }
    } else if t == REPO_PATH_DELETE_REQUEST {
        match path_request_path(s) {
            Err(e) => nack_step(ErrorCode::ParseError, "Failed to parse path delete request: "@ + e),
            Ok(path) => match directory_check(g, path) {
                Err(step) => step,
                Ok(p) => if p == g || same_path(p, g) {
                    nack_step(ErrorCode::BaseRootDeletionError, "Cannot delete base root directory"@)
                } else {
                    StepView::RemoveDirectory(p)
                },
            },
        }
    } else {
        nack_step(ErrorCode::BadRequest, "Unsupported message type: "@ + decimal(t as nat))
    }
}

fn nack(code: ErrorCode, msg: String) -> (r: WorkerReply)
    ensures
        r.reply_type == NACK_REPLY,
        r.payload@ == nack_payload(code, msg@),
{
    let n = NackReply { err_code: code.code(), err_msg: msg };
    WorkerReply { reply_type: NACK_REPLY, payload: n.serialize() }
}

fn text_after(prefix: &str, t: &str) -> (r: String)
    ensures
        r@ == prefix@ + t@,
{
    let mut m = prefix.to_owned();
    m.append(t);
    m
}

/// Decides what requests need, for one collection directory.
pub struct RequestHandler {
    sanitizer: PathSanitizer,
}

impl RequestHandler {
    /// A handler serving the collection rooted at `base_path`.
    pub fn new(base_path: &str) -> (r: RequestHandler)
        ensures
            r.root() == base_path@,
    {
        RequestHandler { sanitizer: PathSanitizer::new(base_path) }
    }

    /// The collection root.
    pub closed spec fn root(&self) -> Seq<char> {
        self.sanitizer.root()
    }

    /// The paths that are served, each with its local path, and how many
    /// are turned down.
    pub fn served_targets(&self, paths: &Vec<String>) -> (r: (Vec<(String, String)>, usize))
        ensures
            pairs_view(r.0@) == served_entries(self.root(), texts_view(paths@)),
            r.1 == refused_count(self.root(), texts_view(paths@)),
    {
        let ghost g = self.root();
        let mut targets: Vec<(String, String)> = Vec::new();
        let mut refused: usize = 0;
        let mut i: usize = 0;
        while i < paths.len()
            invariant
                i <= paths@.len(),
                g == self.root(),
                refused <= i,
                pairs_view(targets@) == served_entries(g, texts_view(paths@).take(i as int)),
                refused == refused_count(g, texts_view(paths@).take(i as int)),
            decreases paths@.len() - i,
        {
            let ghost ps = texts_view(paths@);
            proof {
                assert(ps.take(i + 1).drop_last() =~= ps.take(i as int));
                assert(ps.take(i + 1).last() == paths@[i as int]@);
            }
            let path = &paths[i];
            match self.sanitizer.sanitize_path(path.as_str()) {
                Ok(sp) => {
                    match self.sanitizer.validate_path_security(sp.local_path.as_str()) {
                        Ok(()) => {
                            let ghost before = targets@;
                            let entry = (path.clone(), sp.local_path);
                            targets.push(entry);
                            proof {
                                assert(pairs_view(targets@) =~= pairs_view(before).push(
                                    (entry.0@, entry.1@),
                                ));
                            }
                        },
                        Err(_) => {
                            refused = refused + 1;
                        },
                    }
                },
                Err(_) => {
                    refused = refused + 1;
                },
            }
            i = i + 1;
        }
        proof {
            assert(texts_view(paths@).take(paths@.len() as int) =~= texts_view(paths@));
        }
        (targets, refused)
    }

    /// The local directory a path request is served from, or the negative
    /// acknowledgement that turns it down.
    pub fn check_directory(&self, path: &str) -> (r: Result<String, WorkerStep>)
        ensures
            match directory_check(self.root(), path@) {
                Ok(p) => r matches Ok(l) && l@ == p,
                Err(step) => r matches Err(s) && s@ == step,
            },
    {
        match self.sanitizer.sanitize_path(path) {
            Err(e) => {
                proof {
                    reveal_strlit("Path sanitization failed: ");
                    reveal_strlit("Path sanitization failed: Invalid path: Empty path");
                    reveal_strlit("Invalid path: ");
                    reveal_strlit("Empty path");
                }
                let t = e.message();
                let m = text_after("Path sanitization failed: ", t.as_str());
                assert(m@ =~= "Path sanitization failed: Invalid path: Empty path"@);
                Err(WorkerStep::Reply(nack(ErrorCode::SecurityViolation, m)))
            },
            Ok(sp) => {
                match self.sanitizer.validate_path_security(sp.local_path.as_str()) {
                    Ok(()) => Ok(sp.local_path),
                    Err(e) => {
                        proof {
                            reveal_strlit("Security violation: ");
                        }
                        let t = e.message();
                        let m = text_after("Security violation: ", t.as_str());
                        Err(WorkerStep::Reply(nack(ErrorCode::SecurityViolation, m)))
                    },
                }
            },
        }
    }

    /// Settles a directory removal once it is known whether the directory
    /// is the collection root itself, which is never removed.
    pub fn plan_directory_removal(&self, local_path: String, is_base_root: bool) -> (r: WorkerStep)
        ensures
            r@ == if is_base_root {
                nack_step(ErrorCode::BaseRootDeletionError, "Cannot delete base root directory"@)
            } else {
                StepView::RemoveDirectory(local_path@)
            },
    {
        if is_base_root {
            proof {
                reveal_strlit("Cannot delete base root directory");
            }
            WorkerStep::Reply(
                nack(ErrorCode::BaseRootDeletionError, "Cannot delete base root directory".to_owned()),
            )
        } else {
            WorkerStep::RemoveDirectory { local_path }
        }
    }

    /// Decides what a request of type `msg_type` with body `payload` needs.
    pub fn handle_request(&self, msg_type: u16, payload: &[u8], version_info: &CoreVersionInfo) -> (r:
        WorkerStep)
        ensures
            r@ == request_step(self.root(), msg_type, payload@, *version_info),
    {
        if msg_type == VERSION_REQUEST {
            let v = if version_info.is_connected {
                version_info.version_reply
            } else {
                VersionReply::new()
            };
            WorkerStep::Reply(WorkerReply { reply_type: VERSION_REPLY, payload: v.serialize() })
        } else if msg_type == REPO_DATA_DELETE_REQUEST {
            match parse_delete_request(payload) {
                Err(e) => {
                    proof {
                        reveal_strlit("Failed to parse delete request: ");
                    }
                    let m = text_after("Failed to parse delete request: ", e.as_str());
                    WorkerStep::Reply(nack(ErrorCode::ParseError, m))
                },
                Ok(paths) => {
                    let (entries, refused) = self.served_targets(&paths);
                    let locals = local_paths(entries);
                    WorkerStep::RemoveFiles { targets: locals, refused }
                },
            }
        } else if msg_type == REPO_DATA_GET_SIZE_REQUEST {
            match parse_size_request(payload) {
                Err(e) => {
                    proof {
                        reveal_strlit("Failed to parse size request: ");
                    }
                    let m = text_after("Failed to parse size request: ", e.as_str());
                    WorkerStep::Reply(nack(ErrorCode::ParseError, m))
                },
                Ok(paths) => {
                    let (entries, refused) = self.served_targets(&paths);
                    WorkerStep::MeasureFiles { targets: entries, refused }
                },
            }
        } else if msg_type == REPO_PATH_CREATE_REQUEST {
            match parse_path_request(payload) {
                Err(e) => {
                    proof {
                        reveal_strlit("Failed to parse path create request: ");
                    }
                    let m = text_after("Failed to parse path create request: ", e.as_str());
                    WorkerStep::Reply(nack(ErrorCode::ParseError, m))
                },
                Ok(path) => match self.check_directory(path.as_str()) {
                    Err(step) => step,
                    Ok(local_path) => WorkerStep::CreateDirectory { local_path },
                },
            }
        } else if msg_type == REPO_PATH_DELETE_REQUEST {
            match parse_path_request(payload) {
                Err(e) => {
                    proof {
                        reveal_strlit("Failed to parse path delete request: ");
                    }
                    let m = text_after("Failed to parse path delete request: ", e.as_str());
                    WorkerStep::Reply(nack(ErrorCode::ParseError, m))
                },
                Ok(path) => match self.check_directory(path.as_str()) {
                    Err(step) => step,
                    Ok(local_path) => {
                        let is_root = paths_equal(
                            local_path.as_str(),
                            self.sanitizer.globus_collection_path(),
                        );
                        self.plan_directory_removal(local_path, is_root)
                    },
                },
            }
        } else {
            proof {
                reveal_strlit("Unsupported message type: ");
            }
            let mut m = "Unsupported message type: ".to_owned();
            push_decimal(&mut m, msg_type as u64);
            WorkerStep::Reply(nack(ErrorCode::BadRequest, m))
        }
    }
}

fn local_paths(entries: Vec<(String, String)>) -> (r: Vec<String>)
    ensures
        texts_view(r@) == pairs_view(entries@).map_values(|e: (Seq<char>, Seq<char>)| e.1),
{
    let mut out: Vec<String> = Vec::new();
    let mut i: usize = 0;
    while i < entries.len()
        invariant
            i <= entries@.len(),
            texts_view(out@) =~= pairs_view(entries@).map_values(
                |e: (Seq<char>, Seq<char>)| e.1,
            ).take(i as int),
        decreases entries@.len() - i,
    {
        let p = entries[i].1.clone();
        let ghost before = out@;
        out.push(p);
        proof {
            let lv = pairs_view(entries@).map_values(|e: (Seq<char>, Seq<char>)| e.1);
            assert(lv[i as int] == entries@[i as int].1@);
            assert(texts_view(out@) =~= texts_view(before).push(p@));
            assert(lv.take(i + 1) =~= lv.take(i as int).push(lv[i as int]));
        }
        i = i + 1;
    }
    out
}


// ---------------------------------------------------------------------------
// Replies once the file system work is done.
// ---------------------------------------------------------------------------

/// How many entries are `true`.
pub open spec fn count_true(s: Seq<bool>) -> nat
    decreases s.len(),
{
    if s.len() == 0 {
        0
    } else {
        count_true(s.drop_last()) + if s.last() {
            1nat
        } else {
            0nat
        }
    }
}

/// How many entries hold a value.
pub open spec fn count_some(s: Seq<Option<u64>>) -> nat
    decreases s.len(),
{
    if s.len() == 0 {
        0
    } else {
        count_some(s.drop_last()) + if s.last() is Some {
            1nat
        } else {
            0nat
        }
    }
}

proof fn lemma_count_some_bound(s: Seq<Option<u64>>)
    ensures
        count_some(s) <= s.len(),
        count_some(s) == s.len() ==> forall|i: int| 0 <= i < s.len() ==> s[i] is Some,
    decreases s.len(),
{
    if s.len() > 0 {
        lemma_count_some_bound(s.drop_last());
        assert forall|i: int| 0 <= i < s.len() && count_some(s) == s.len() implies s[i] is Some by {
            if i < s.len() - 1 {
                assert(s.drop_last()[i] == s[i]);
            }
        }
    }
}

/// The reply to a delete request: `refused` paths were turned down and
/// `removed` tells, for each served file, whether it was removed.
pub open spec fn delete_reply(refused: nat, removed: Seq<bool>) -> (u16, Seq<u8>) {
    let done = count_true(removed);
    let failed = refused + removed.len() - done;
    if failed == 0 {
        (ACK_REPLY, Seq::empty())
    } else {
        (
            NACK_REPLY,
            nack_payload(
                ErrorCode::InternalError,
                "Deleted "@ + decimal(done) + " files, "@ + decimal(failed as nat) + " errors"@,
            ),
        )
    }
}

/// The record sizes of the served entries, paired with what was read.
pub open spec fn size_records(entries: Seq<(Seq<char>, Seq<char>)>, sizes: Seq<Option<u64>>) -> Seq<
    SizeView,
> {
    Seq::new(entries.len(), |i: int| (entries[i].0, sizes[i].unwrap()))
}

/// The reply to a size request: `refused` paths were turned down and
/// `sizes` holds, for each served entry, the size read or `None`.
pub open spec fn size_reply(
    refused: nat,
    entries: Seq<(Seq<char>, Seq<char>)>,
    sizes: Seq<Option<u64>>,
) -> (u16, Seq<u8>) {
    let done = count_some(sizes);
    let failed = refused + sizes.len() - done;
    if failed == 0 {
        (REPO_DATA_SIZE_REPLY, size_list_bytes(size_records(entries, sizes)))
    } else {
        (
            NACK_REPLY,
            nack_payload(
                ErrorCode::InternalError,
                "Processed "@ + decimal(done) + " files, "@ + decimal(failed as nat) + " errors"@,
            ),
        )
    }
}

fn counted_message(head: &str, done: u64, failed: u64) -> (r: String)
    ensures
        r@ == head@ + decimal(done as nat) + " files, "@ + decimal(failed as nat) + " errors"@,
{
    proof {
        reveal_strlit(" files, ");
        reveal_strlit(" errors");
    }
    let mut m = head.to_owned();
    push_decimal(&mut m, done);
    m.append(" files, ");
    push_decimal(&mut m, failed);
    m.append(" errors");
    m
}

/// The reply to a delete request once the served files were removed or not.
pub fn finish_delete(refused: usize, removed: &[bool]) -> (r: WorkerReply)
    requires
        refused + removed@.len() <= usize::MAX,
    ensures
        (r.reply_type, r.payload@) == delete_reply(refused as nat, removed@),
{
    let mut done: usize = 0;
    let mut i: usize = 0;
    while i < removed.len()
        invariant
            i <= removed@.len(),
            done == count_true(removed@.take(i as int)),
            done <= i,
        decreases removed@.len() - i,
    {
        proof {
            assert(removed@.take(i + 1).drop_last() =~= removed@.take(i as int));
        }
        if removed[i] {
            done = done + 1;
        }
        i = i + 1;
    }
    proof {
        assert(removed@.take(removed@.len() as int) =~= removed@);
    }
    let failed = refused + (removed.len() - done);
    if failed == 0 {
        WorkerReply { reply_type: ACK_REPLY, payload: Vec::new() }
    } else {
        proof {
            reveal_strlit("Deleted ");
        }
        let m = counted_message("Deleted ", done as u64, failed as u64);
        nack(ErrorCode::InternalError, m)
    }
}

/// The reply to a size request once the sizes of the served files were
/// read or not; `sizes` lines up with `targets`.
pub fn finish_size(refused: usize, targets: &Vec<(String, String)>, sizes: &[Option<u64>]) -> (r:
    WorkerReply)
    requires
        sizes@.len() == targets@.len(),
        refused + sizes@.len() <= usize::MAX,
    ensures
        (r.reply_type, r.payload@) == size_reply(refused as nat, pairs_view(targets@), sizes@),
{
    let mut done: usize = 0;
    let mut i: usize = 0;
    while i < sizes.len()
        invariant
            i <= sizes@.len(),
            done == count_some(sizes@.take(i as int)),
            done <= i,
        decreases sizes@.len() - i,
    {
        proof {
            assert(sizes@.take(i + 1).drop_last() =~= sizes@.take(i as int));
        }
        if sizes[i].is_some() {
            done = done + 1;
        }
        i = i + 1;
    }
    proof {
        assert(sizes@.take(sizes@.len() as int) =~= sizes@);
        lemma_count_some_bound(sizes@);
    }
    let failed = refused + (sizes.len() - done);
    if failed == 0 {
        let ghost entries = pairs_view(targets@);
        let mut records: Vec<RecordDataSize> = Vec::new();
        let mut j: usize = 0;
        while j < targets.len()
            invariant
                j <= targets@.len(),
                sizes@.len() == targets@.len(),
                entries == pairs_view(targets@),
                forall|k: int| 0 <= k < sizes@.len() ==> sizes@[k] is Some,
                crate::proto::sizes_view(records@) =~= size_records(entries, sizes@).take(j as int),
            decreases targets@.len() - j,
        {
            let size = match sizes[j] {
                Some(v) => v,
                None => 0,
            };
            let rec = RecordDataSize { id: targets[j].0.clone(), size };
            let ghost before = records@;
            records.push(rec);
            proof {
                assert(crate::proto::sizes_view(records@) =~= crate::proto::sizes_view(before).push(
                    rec@,
                ));
                assert(size_records(entries, sizes@).take(j + 1) =~= size_records(
                    entries,
                    sizes@,
                ).take(j as int).push(size_records(entries, sizes@)[j as int]));
            }
            j = j + 1;
        }
        proof {
            assert(size_records(entries, sizes@).take(targets@.len() as int) =~= size_records(
                entries,
                sizes@,
            ));
        }
        let reply = RepoDataSizeReply { size: records };
        WorkerReply { reply_type: REPO_DATA_SIZE_REPLY, payload: reply.serialize() }
    } else {
        proof {
            reveal_strlit("Processed ");
        }
        let m = counted_message("Processed ", done as u64, failed as u64);
        nack(ErrorCode::InternalError, m)
    }
}

/// The reply once a directory was created, or the text of why it was not.
pub fn finish_create_directory(local_path: &str, outcome: Result<(), String>) -> (r: WorkerReply)
    ensures
        match outcome {
            Ok(()) => r.reply_type == ACK_REPLY && r.payload@ == Seq::<u8>::empty(),
            Err(e) => r.reply_type == NACK_REPLY && r.payload@ == nack_payload(
                ErrorCode::DirectoryCreationError,
                "Failed to create directory "@ + local_path@ + ": "@ + e@,
            ),
        },
{
    match outcome {
        Ok(()) => WorkerReply { reply_type: ACK_REPLY, payload: Vec::new() },
        Err(e) => {
            proof {
                reveal_strlit("Failed to create directory ");
                reveal_strlit(": ");
            }
            let mut m = "Failed to create directory ".to_owned();
            m.append(local_path);
            m.append(": ");
            m.append(e.as_str());
            nack(ErrorCode::DirectoryCreationError, m)
        },
    }
}

/// The reply once a directory was removed, or the text of why it was not.
pub fn finish_remove_directory(local_path: &str, outcome: Result<(), String>) -> (r: WorkerReply)
    ensures
        match outcome {
            Ok(()) => r.reply_type == ACK_REPLY && r.payload@ == Seq::<u8>::empty(),
            Err(e) => r.reply_type == NACK_REPLY && r.payload@ == nack_payload(
                ErrorCode::DirectoryDeletionError,
                "Failed to delete directory "@ + local_path@ + ": "@ + e@,
            ),
        },
{
    match outcome {
        Ok(()) => WorkerReply { reply_type: ACK_REPLY, payload: Vec::new() },
        Err(e) => {
            proof {
                reveal_strlit("Failed to delete directory ");
                reveal_strlit(": ");
            }
            let mut m = "Failed to delete directory ".to_owned();
            m.append(local_path);
            m.append(": ");
            m.append(e.as_str());
            nack(ErrorCode::DirectoryDeletionError, m)
        },
    }
}


// ---------------------------------------------------------------------------
// Size summary in JSON.
// ---------------------------------------------------------------------------

/// `s` with each double quote preceded by a backslash.
pub open spec fn escape_quotes(s: Seq<char>) -> Seq<char>
    decreases s.len(),
{
    if s.len() == 0 {
        Seq::empty()
    } else {
        escape_quotes(s.drop_last()) + if s.last() == '"' {
            seq!['\\', '"']
        } else {
            seq![s.last()]
        }
    }
}

/// One `"path":size` member.
pub open spec fn json_size_member(r: (Seq<char>, u64)) -> Seq<char> {
    "\""@ + escape_quotes(r.0) + "\":"@ + decimal(r.1 as nat)
}

/// The members for all results, separated by commas.
pub open spec fn json_size_members(rs: Seq<(Seq<char>, u64)>) -> Seq<char>
    decreases rs.len(),
{
    if rs.len() == 0 {
        Seq::empty()
    } else if rs.len() == 1 {
        json_size_member(rs[0])
    } else {
        json_size_members(rs.drop_last()) + ","@ + json_size_member(rs.last())
    }
}

/// `{"files":{...},"total":N}` for the results and total.
pub open spec fn size_summary_json(rs: Seq<(Seq<char>, u64)>, total: u64) -> Seq<char> {
    "{\"files\":{"@ + json_size_members(rs) + "},\"total\":"@ + decimal(total as nat) + "}"@
}

fn push_escaped(out: &mut String, s: &str)
    ensures
        final(out)@ == old(out)@ + escape_quotes(s@),
{
    proof {
        reveal_strlit("\\\"");
    }
    let n = s.unicode_len();
    let mut i: usize = 0;
    while i < n
        invariant
            n == s@.len(),
            i <= n,
            out@ == old(out)@ + escape_quotes(s@.take(i as int)),
        decreases n - i,
    {
        proof {
            assert(s@.take(i + 1).drop_last() =~= s@.take(i as int));
        }
        let c = s.get_char(i);
        let ghost prev = out@;
        if c == '"' {
            proof {
                reveal_strlit("\\\"");
                assert("\\\""@.len() == 2);
                assert("\\\""@[0] == '\\');
                assert("\\\""@[1] == '"');
                assert("\\\""@ =~= seq!['\\', '"']);
            }
            out.append("\\\"");
        } else {
            out.append(s.substring_char(i, i + 1));
            proof {
                assert(s@.subrange(i as int, i + 1) =~= seq![c]);
            }
        }
        proof {
            assert(out@ =~= old(out)@ + escape_quotes(s@.take(i + 1)));
        }
        i = i + 1;
    }
    proof {
        assert(s@.take(n as int) =~= s@);
    }
}

/// The sizes and their total as JSON bytes:
/// `{"files":{"a.txt":1024,"b.txt":2048},"total":3072}`, with double quotes
/// in paths escaped.
pub fn create_size_reply(results: &[(String, u64)], total_size: u64) -> (r: Vec<u8>)
    ensures
        r@ == encode_utf8(
            size_summary_json(
                results@.map_values(|e: (String, u64)| (e.0@, e.1)),
                total_size,
            ),
        ),
{
    let ghost rs = results@.map_values(|e: (String, u64)| (e.0@, e.1));
    proof {
        reveal_strlit("{\"files\":{");
        reveal_strlit(",");
        reveal_strlit("\"");
        reveal_strlit("\":");
        reveal_strlit("},\"total\":");
        reveal_strlit("}");
    }
    let mut json = "{\"files\":{".to_owned();
    let ghost head = json@;
    let mut i: usize = 0;
    while i < results.len()
        invariant
            i <= results@.len(),
            rs == results@.map_values(|e: (String, u64)| (e.0@, e.1)),
            head == "{\"files\":{"@,
            json@ == head + json_size_members(rs.take(i as int)),
        decreases results@.len() - i,
    {
        proof {
            assert(rs.take(i + 1).drop_last() =~= rs.take(i as int));
            assert(rs.take(i + 1).last() == rs[i as int]);
        }
        if i > 0 {
            json.append(",");
        }
        json.append("\"");
        push_escaped(&mut json, results[i].0.as_str());
        json.append("\":");
        push_decimal(&mut json, results[i].1);
        proof {
            if i == 0 {
                assert(rs.take(1).len() == 1);
            }
            assert(json@ =~= head + json_size_members(rs.take(i + 1)));
        }
        i = i + 1;
    }
    proof {
        assert(rs.take(results@.len() as int) =~= rs);
    }
    json.append("},\"total\":");
    push_decimal(&mut json, total_size);
    json.append("}");
    assert(json@ =~= size_summary_json(rs, total_size));
    slice_to_vec(json.as_str().as_bytes())
}


// ---------------------------------------------------------------------------
// Laws.
// ---------------------------------------------------------------------------

/// Each path of a request is either served or turned down: the served
/// entries and the refusals add up to the paths given, and every served
/// entry keeps its request path and has a local path that passed the
/// security check.
pub proof fn lemma_served_entries(g: Seq<char>, paths: Seq<Seq<char>>)
    ensures
        served_entries(g, paths).len() + refused_count(g, paths) == paths.len(),
        forall|i: int|
            0 <= i < served_entries(g, paths).len() ==> {
                let e = #[trigger] served_entries(g, paths)[i];
                &&& served_path(g, e.0) == Some(e.1)
                &&& security_ok(g, e.1)
                &&& paths.contains(e.0)
            },
    decreases paths.len(),
{
    if paths.len() > 0 {
        let init = paths.drop_last();
        lemma_served_entries(g, init);
        let rest = served_entries(g, init);
        assert forall|i: int| 0 <= i < served_entries(g, paths).len() implies {
            let e = #[trigger] served_entries(g, paths)[i];
            &&& served_path(g, e.0) == Some(e.1)
            &&& security_ok(g, e.1)
            &&& paths.contains(e.0)
        } by {
            if i < rest.len() {
                assert(served_entries(g, paths)[i] == rest[i]);
                let k = choose|k: int| 0 <= k < init.len() && init[k] == rest[i].0;
                assert(paths[k] == init[k]);
            } else {
                assert(paths[paths.len() - 1] == paths.last());
            }
        }
    }
}

/// The worker only ever asks the file system to touch paths that lie within
/// the collection root (compared at component boundaries) and hold neither
/// `..` nor `//`, and it never asks to remove the root directory itself.
pub proof fn lemma_requested_work_is_confined(g: Seq<char>, t: u16, s: Seq<u8>, info: CoreVersionInfo)
    ensures
        request_step(g, t, s, info) matches StepView::RemoveFiles(ts, _) ==> forall|i: int|
            0 <= i < ts.len() ==> security_ok(g, #[trigger] ts[i]),
        request_step(g, t, s, info) matches StepView::MeasureFiles(es, _) ==> forall|i: int|
            0 <= i < es.len() ==> security_ok(g, (#[trigger] es[i]).1),
        request_step(g, t, s, info) matches StepView::CreateDirectory(p) ==> security_ok(g, p),
        request_step(g, t, s, info) matches StepView::RemoveDirectory(p) ==> security_ok(g, p)
            && p != g && !same_path(p, g),
{
    match location_paths(s) {
        Ok(ps) => {
            lemma_served_entries(g, ps);
            let es = served_entries(g, ps);
            let ts = es.map_values(|e: (Seq<char>, Seq<char>)| e.1);
            assert forall|i: int| 0 <= i < ts.len() implies security_ok(g, #[trigger] ts[i]) by {
                assert(ts[i] == es[i].1);
            }
        },
        Err(_) => {},
    }
}


proof fn lemma_count_true_all(s: Seq<bool>)
    ensures
        count_true(s) <= s.len(),
        count_true(s) == s.len() <==> forall|i: int| 0 <= i < s.len() ==> s[i],
    decreases s.len(),
{
    if s.len() > 0 {
        lemma_count_true_all(s.drop_last());
        if count_true(s) == s.len() {
            assert forall|i: int| 0 <= i < s.len() implies s[i] by {
                if i < s.len() - 1 {
                    assert(s.drop_last()[i] == s[i]);
                }
            }
        }
        if forall|i: int| 0 <= i < s.len() ==> s[i] {
            assert forall|i: int| 0 <= i < s.drop_last().len() implies s.drop_last()[i] by {
                assert(s.drop_last()[i] == s[i]);
            }
            assert(s[s.len() - 1]);
        }
    }
}

/// A delete request is acknowledged exactly when no path was turned down
/// and every served file was removed; otherwise the negative
/// acknowledgement counts what was done and what failed.
pub proof fn lemma_delete_acknowledged_iff_complete(refused: nat, removed: Seq<bool>)
    ensures
        delete_reply(refused, removed).0 == ACK_REPLY <==> (refused == 0 && forall|i: int|
            0 <= i < removed.len() ==> removed[i]),
        delete_reply(refused, removed).0 == ACK_REPLY || delete_reply(refused, removed).0
            == NACK_REPLY,
{
    lemma_count_true_all(removed);
}

/// A size request gets the size reply exactly when no path was turned down
/// and every served size was read.
pub proof fn lemma_size_reply_iff_complete(
    refused: nat,
    entries: Seq<(Seq<char>, Seq<char>)>,
    sizes: Seq<Option<u64>>,
)
    ensures
        size_reply(refused, entries, sizes).0 == REPO_DATA_SIZE_REPLY <==> (refused == 0 && forall|
            i: int,
        | 0 <= i < sizes.len() ==> sizes[i] is Some),
{
    lemma_count_some_bound(sizes);
    if refused == 0 && forall|i: int| 0 <= i < sizes.len() ==> sizes[i] is Some {
        lemma_count_some_all(sizes);
    }
}

proof fn lemma_count_some_all(s: Seq<Option<u64>>)
    requires
        forall|i: int| 0 <= i < s.len() ==> s[i] is Some,
    ensures
        count_some(s) == s.len(),
    decreases s.len(),
{
    if s.len() > 0 {
        assert forall|i: int| 0 <= i < s.drop_last().len() implies s.drop_last()[i] is Some by {
            assert(s.drop_last()[i] == s[i]);
        }
        lemma_count_some_all(s.drop_last());
        assert(s[s.len() - 1] is Some);
    }
}

} // verus!
