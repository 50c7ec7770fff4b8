use repo_server_rs::message::message_types::{
    ACK_REPLY, NACK_REPLY, REPO_DATA_DELETE_REQUEST, REPO_DATA_GET_SIZE_REQUEST,
    REPO_DATA_SIZE_REPLY, REPO_PATH_CREATE_REQUEST, REPO_PATH_DELETE_REQUEST, VERSION_REPLY,
    VERSION_REQUEST,
};
use repo_server_rs::message::NackReply;
use repo_server_rs::proto::{RecordDataSize, RepoDataSizeReply, VersionReply};
use repo_server_rs::version::CoreVersionInfo;
use repo_server_rs::worker::{
    create_size_reply, finish_create_directory, finish_delete, finish_remove_directory,
    finish_size, parse_delete_request, parse_path_request, parse_size_request, RequestHandler,
    WorkerReply, WorkerStep, ZMQInprocMessenger,
};

fn nack_bytes(code: i32, msg: &str) -> Vec<u8> {
    NackReply { err_code: code, err_msg: msg.to_string() }.serialize()
}

fn text_field(tag: u8, text: &str) -> Vec<u8> {
    let mut v = vec![tag, text.len() as u8];
    v.extend_from_slice(text.as_bytes());
    v
}

fn location(id: &str, path: &str) -> Vec<u8> {
    let mut inner = text_field(0x0A, id);
    inner.extend(text_field(0x12, path));
    let mut v = vec![0x0A, inner.len() as u8];
    v.extend(inner);
    v
}

fn expect_reply(step: WorkerStep) -> WorkerReply {
    match step {
        WorkerStep::Reply(r) => r,
        other => panic!("expected a reply, got {:?}", other),
    }
}

#[test]
fn frame_shorter_than_four_bytes_gives_nothing() {
    let m = ZMQInprocMessenger::new(3);
    assert_eq!(m.id(), 3);
    assert!(m.envelope_from_frame(&[], "c".to_string(), 0).is_none());
    assert!(m.envelope_from_frame(&[1, 2, 3], "c".to_string(), 0).is_none());
}

#[test]
fn short_frame_keeps_all_bytes_after_type() {
    let m = ZMQInprocMessenger::new(0);
    let env = m.envelope_from_frame(&[0x02, 0x01, 0xAA, 0xBB], "corr".to_string(), 7).unwrap();
    assert_eq!(env.msg_type, 258);
    assert_eq!(env.payload, vec![0xAA, 0xBB]);
    assert_eq!(env.correlation_id, "corr");
    assert_eq!(env.context, 7);
    assert!(env.key.is_none());
    assert!(env.route.is_none());
    assert_eq!(env.original_request, Some(vec![0x02, 0x01, 0xAA, 0xBB]));
}

#[test]
fn long_frame_drops_route_count() {
    let m = ZMQInprocMessenger::new(0);
    let frame = [0x4F, 0x02, 9, 8, 7, 0, 0, 0, 0];
    let env = m.envelope_from_frame(&frame, "x".to_string(), 1).unwrap();
    assert_eq!(env.msg_type, 591);
    assert_eq!(env.payload, vec![9, 8, 7]);
}

#[test]
fn delete_request_paths_are_decoded() {
    let mut body = location("r1", "a/b.txt");
    body.extend(location("r2", "c.txt"));
    assert_eq!(parse_delete_request(&body).unwrap(), vec!["a/b.txt".to_string(), "c.txt".to_string()]);
    assert_eq!(parse_size_request(&body).unwrap(), vec!["a/b.txt".to_string(), "c.txt".to_string()]);
}

#[test]
fn delete_request_errors() {
    assert_eq!(parse_delete_request(&[]).unwrap_err(), "Empty payload");
    assert_eq!(parse_delete_request(&[0x0A, 0x05, 0x0A]).unwrap_err(), "Invalid protobuf data");
    assert_eq!(parse_size_request(&[0x0A, 0x80]).unwrap_err(), "Invalid protobuf data");
}

#[test]
fn path_request_short_field_and_record_forms() {
    assert_eq!(parse_path_request(&[0x0A, 3, b'a', b'b', b'c']).unwrap(), "abc");
    assert_eq!(parse_path_request(&[3, 0, 0, 0, b'x', b'y', b'z']).unwrap(), "xyz");
}

#[test]
fn path_request_errors() {
    assert_eq!(parse_path_request(&[]).unwrap_err(), "Empty payload");
    assert_eq!(
        parse_path_request(&[1, 2]).unwrap_err(),
        "Failed to parse RepoPathCreateRequest: RepoPathCreateRequest data too short"
    );
    assert_eq!(
        parse_path_request(&[9, 0, 0, 0, b'a']).unwrap_err(),
        "Failed to parse RepoPathCreateRequest: Invalid RepoPathCreateRequest data"
    );
    assert_eq!(
        parse_path_request(&[1, 0, 0, 0, 0xFF]).unwrap_err(),
        format!(
            "Failed to parse RepoPathCreateRequest: {}",
            String::from_utf8(vec![0xFF]).unwrap_err()
        )
    );
}

#[test]
fn version_request_uses_local_version_until_connected() {
    let h = RequestHandler::new("/data/repo");
    let mut info = CoreVersionInfo::new();
    let r = expect_reply(h.handle_request(VERSION_REQUEST, &[], &info));
    assert_eq!(r.reply_type, VERSION_REPLY);
    assert_eq!(r.payload, VersionReply::new().serialize());
    let core = VersionReply { release_year: 2030, ..VersionReply::new() };
    info.update_from_core(core);
    let r = expect_reply(h.handle_request(VERSION_REQUEST, &[], &info));
    assert_eq!(r.payload, core.serialize());
    assert_eq!(&r.payload[0..4], &[0xEE, 0x07, 0, 0]);
}

#[test]
fn unknown_type_is_a_bad_request() {
    let h = RequestHandler::new("/data/repo");
    let r = expect_reply(h.handle_request(7, &[1, 2, 3], &CoreVersionInfo::new()));
    assert_eq!(r.reply_type, NACK_REPLY);
    assert_eq!(r.payload, nack_bytes(-1, "Unsupported message type: 7"));
    assert_eq!(r.payload[0..2], [0x08, 0x01]);
}

#[test]
fn delete_request_selects_served_files() {
    let h = RequestHandler::new("/data/repo");
    let mut body = location("r1", "a.txt");
    body.extend(location("r2", "../etc/passwd"));
    body.extend(location("r3", "/data/repo/b.txt"));
    match h.handle_request(REPO_DATA_DELETE_REQUEST, &body, &CoreVersionInfo::new()) {
        WorkerStep::RemoveFiles { targets, refused } => {
            assert_eq!(targets, vec!["/data/repo/a.txt".to_string(), "/data/repo/b.txt".to_string()]);
            assert_eq!(refused, 1);
        }
        other => panic!("unexpected step {:?}", other),
    }
}

#[test]
fn delete_request_parse_failure_is_nacked() {
    let h = RequestHandler::new("/data/repo");
    let r = expect_reply(h.handle_request(REPO_DATA_DELETE_REQUEST, &[], &CoreVersionInfo::new()));
    assert_eq!(r.payload, nack_bytes(-3, "Failed to parse delete request: Empty payload"));
}

#[test]
fn size_request_keeps_request_paths() {
    let h = RequestHandler::new("/data/repo/");
    let body = location("r1", "x/y.dat");
    match h.handle_request(REPO_DATA_GET_SIZE_REQUEST, &body, &CoreVersionInfo::new()) {
        WorkerStep::MeasureFiles { targets, refused } => {
            assert_eq!(targets, vec![("x/y.dat".to_string(), "/data/repo/x/y.dat".to_string())]);
            assert_eq!(refused, 0);
        }
        other => panic!("unexpected step {:?}", other),
    }
}

#[test]
fn path_create_checks_security() {
    let h = RequestHandler::new("/data/repo");
    let info = CoreVersionInfo::new();
    match h.handle_request(REPO_PATH_CREATE_REQUEST, &text_field(0x0A, "new/dir"), &info) {
        WorkerStep::CreateDirectory { local_path } => assert_eq!(local_path, "/data/repo/new/dir"),
        other => panic!("unexpected step {:?}", other),
    }
    let r = expect_reply(h.handle_request(REPO_PATH_CREATE_REQUEST, &text_field(0x0A, "a/../b"), &info));
    assert_eq!(
        r.payload,
        nack_bytes(
            -4,
            "Security violation: Security violation: path Path '/data/repo/a/../b' contains dangerous patterns is outside base root"
        )
    );
    let r = expect_reply(h.handle_request(REPO_PATH_CREATE_REQUEST, &[0x0A, 0], &info));
    assert_eq!(r.payload, nack_bytes(-4, "Path sanitization failed: Invalid path: Empty path"));
    let r = expect_reply(h.handle_request(REPO_PATH_CREATE_REQUEST, &[], &info));
    assert_eq!(r.payload, nack_bytes(-3, "Failed to parse path create request: Empty payload"));
}

#[test]
fn path_delete_refuses_base_root() {
    let h = RequestHandler::new("/data/repo");
    let info = CoreVersionInfo::new();
    let r = expect_reply(h.handle_request(REPO_PATH_DELETE_REQUEST, &text_field(0x0A, "/data/repo"), &info));
    assert_eq!(r.reply_type, NACK_REPLY);
    assert_eq!(r.payload, nack_bytes(-6, "Cannot delete base root directory"));
    match h.handle_request(REPO_PATH_DELETE_REQUEST, &text_field(0x0A, "old"), &info) {
        WorkerStep::RemoveDirectory { local_path } => assert_eq!(local_path, "/data/repo/old"),
        other => panic!("unexpected step {:?}", other),
    }
    match h.plan_directory_removal("/data/repo".to_string(), true) {
        WorkerStep::Reply(r) => assert_eq!(r.payload, nack_bytes(-6, "Cannot delete base root directory")),
        other => panic!("unexpected step {:?}", other),
    }
}

#[test]
fn delete_outcome_counts() {
    let ok = finish_delete(0, &[true, true]);
    assert_eq!(ok.reply_type, ACK_REPLY);
    assert!(ok.payload.is_empty());
    let bad = finish_delete(1, &[true, false]);
    assert_eq!(bad.reply_type, NACK_REPLY);
    assert_eq!(bad.payload, nack_bytes(-2, "Deleted 1 files, 2 errors"));
}

#[test]
fn size_outcome_builds_size_reply() {
    let targets = vec![
        ("a".to_string(), "/r/a".to_string()),
        ("b".to_string(), "/r/b".to_string()),
    ];
    let r = finish_size(0, &targets, &[Some(10), Some(2048)]);
    assert_eq!(r.reply_type, REPO_DATA_SIZE_REPLY);
    let expected = RepoDataSizeReply {
        size: vec![
            RecordDataSize { id: "a".to_string(), size: 10 },
            RecordDataSize { id: "b".to_string(), size: 2048 },
        ],
    };
    assert_eq!(r.payload, expected.serialize());
    let r = finish_size(2, &targets, &[Some(10), None]);
    assert_eq!(r.payload, nack_bytes(-2, "Processed 1 files, 3 errors"));
}

#[test]
fn directory_outcomes() {
    let ok = finish_create_directory("/r/d", Ok(()));
    assert_eq!(ok.reply_type, ACK_REPLY);
    let bad = finish_create_directory("/r/d", Err("denied".to_string()));
    assert_eq!(bad.payload, nack_bytes(-5, "Failed to create directory /r/d: denied"));
    let bad = finish_remove_directory("/r/d", Err("busy".to_string()));
    assert_eq!(bad.payload, nack_bytes(-7, "Failed to delete directory /r/d: busy"));
    assert_eq!(finish_remove_directory("/r/d", Ok(())).reply_type, ACK_REPLY);
}

#[test]
fn size_summary_json_escapes_quotes() {
    let results = vec![("file1.txt".to_string(), 1024u64), ("sub/\"q\".txt".to_string(), 2048u64)];
    let json = create_size_reply(&results, 3072);
    assert_eq!(
        String::from_utf8(json).unwrap(),
        "{\"files\":{\"file1.txt\":1024,\"sub/\\\"q\\\".txt\":2048},\"total\":3072}"
    );
    assert_eq!(create_size_reply(&[], 0), b"{\"files\":{},\"total\":0}".to_vec());
}

#[test]
fn sibling_of_root_is_refused() {
    let h = RequestHandler::new("/data/repo");
    let info = CoreVersionInfo::new();
    let r = expect_reply(h.handle_request(REPO_PATH_CREATE_REQUEST, &text_field(0x0A, "/data/repo2/x"), &info));
    assert_eq!(
        r.payload,
        nack_bytes(
            -4,
            "Security violation: Security violation: path Path '/data/repo2/x' is not within base path '/data/repo' is outside base root"
        )
    );
}

#[test]
fn utf8_failures_report_std_text() {
    // an invalid byte after two valid ones
    let bad = location("r", "ab\u{0}");
    let mut body = bad.clone();
    let n = body.len();
    body[n - 1] = 0xC0;
    let std_text = String::from_utf8(vec![b'a', b'b', 0xC0]).unwrap_err().to_string();
    assert_eq!(parse_delete_request(&body).unwrap_err(), std_text);
    // a sequence cut short at the end
    let mut cut = vec![0x0A, 5, 0x12, 3, b'x', 0xE2, 0x82];
    cut[1] = (cut.len() - 2) as u8;
    let std_text = String::from_utf8(vec![b'x', 0xE2, 0x82]).unwrap_err().to_string();
    assert_eq!(std_text, "incomplete utf-8 byte sequence from index 1");
    assert_eq!(parse_size_request(&cut).unwrap_err(), std_text);
    let h = RequestHandler::new("/r");
    let r = expect_reply(h.handle_request(REPO_DATA_DELETE_REQUEST, &body, &CoreVersionInfo::new()));
    assert_eq!(
        r.payload,
        nack_bytes(-3, "Failed to parse delete request: invalid utf-8 sequence of 1 bytes from index 2")
    );
}
