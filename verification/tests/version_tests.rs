use repo_server_rs::version::record_core_version;
use repo_server_rs::log_context::LogCtx;
use repo_server_rs::proto::VersionReply as ProtoVersionReply;
use repo_server_rs::version::{
    api_major, api_minor, evaluate_core_version, parse_core_server_address, repo_major, repo_minor,
    repo_patch, AddressError, CoreVersionInfo, PortError, VersionCheck, VersionError, VersionReply,
};
use std::sync::{Arc, RwLock};

#[test]
fn test_version_reply_creation() {
    let version = VersionReply::new();

    assert!(version.release_year > 0);
    assert!(version.release_month > 0);
    assert!(version.release_day > 0);
    assert!(version.api_major > 0);
    assert!(version.component_major > 0);
}

#[test]
fn test_version_reply_from_core_server() {
    let version = VersionReply::from_core_server(2025, 6, 11, 14, 1, 1, 0, 0, 1, 0, 0);

    assert_eq!(version.release_year, 2025);
    assert_eq!(version.release_month, 6);
    assert_eq!(version.release_day, 11);
    assert_eq!(version.api_major, 1);
    assert_eq!(version.component_major, 1);
}

#[test]
fn test_version_reply_serialization() {
    let version = VersionReply::new();
    let bytes = version.to_bytes();

    // Should have 44 bytes (11 fields * 4 bytes each)
    assert_eq!(bytes.len(), 44);
}

#[test]
fn test_shared_version_info() {
    let info = Arc::new(RwLock::new(CoreVersionInfo::new()));
    let version_info = info.read().unwrap();

    assert!(!version_info.is_connected);
    assert!(version_info.version_reply.release_year > 0);
}

#[test]
fn version_bytes_are_little_endian_fields() {
    let bytes = VersionReply::new().to_bytes();
    assert_eq!(&bytes[0..4], &[0xE9, 0x07, 0, 0]);
    assert_eq!(&bytes[4..8], &[6, 0, 0, 0]);
    assert_eq!(&bytes[40..44], &[0, 0, 0, 0]);
}

#[test]
fn version_numbers_from_environment_values() {
    assert_eq!(repo_major(None), 1);
    assert_eq!(repo_minor(Some("7")), 7);
    assert_eq!(repo_patch(Some("x")), 0);
    assert_eq!(api_major(Some("+3")), 3);
    assert_eq!(api_minor(Some("4294967296")), 1);
}

#[test]
fn core_version_info_updates() {
    let mut info = CoreVersionInfo::new();
    assert_eq!(info.version_reply, ProtoVersionReply::new());
    let mut core = ProtoVersionReply::new();
    core.release_year = 2030;
    info.update_from_core(core);
    assert!(info.is_connected);
    assert_eq!(info.version_reply.release_year, 2030);
    info.mark_disconnected();
    assert!(!info.is_connected);
    assert_eq!(info.version_reply.release_year, 2030);
}

#[test]
fn core_version_evaluation() {
    let mut core = ProtoVersionReply::new();
    assert_eq!(
        evaluate_core_version(&core),
        Ok(VersionCheck { significant_api_change: true, new_release_available: false })
    );
    core.release_minute = 2;
    assert_eq!(evaluate_core_version(&core).unwrap().new_release_available, true);
    core.release_minute = 1;
    core.release_month = 5;
    core.release_day = 30;
    assert_eq!(evaluate_core_version(&core).unwrap().new_release_available, false);
    core.api_major = 2;
    assert_eq!(
        evaluate_core_version(&core),
        Err(VersionError::IncompatibleApi { major: 2, minor: 1, patch: 0 })
    );
}

#[test]
fn core_server_addresses() {
    assert_eq!(parse_core_server_address("tcp://localhost:9998"), Ok(("localhost", 9998, "tcp")));
    assert_eq!(parse_core_server_address("tcp://[::1]:7512"), Ok(("[::1]", 7512, "tcp")));
    assert_eq!(parse_core_server_address("localhost:9998"), Err(AddressError::InvalidFormat));
    assert_eq!(parse_core_server_address("tcp://a://b:1"), Err(AddressError::InvalidFormat));
    assert_eq!(parse_core_server_address("ipc://x:1"), Err(AddressError::UnsupportedScheme));
    assert_eq!(parse_core_server_address("tcp://host"), Err(AddressError::NoPort));
    assert_eq!(parse_core_server_address("tcp://host:"), Err(AddressError::InvalidPort(PortError::Empty)));
    assert_eq!(parse_core_server_address("tcp://host:65536"), Err(AddressError::InvalidPort(PortError::TooLarge)));
}

#[test]
fn address_error_texts() {
    let e = parse_core_server_address("localhost:9998").unwrap_err();
    assert_eq!(e.message(), "Invalid core server address format. Expected 'tcp://host:port'");
    let e = parse_core_server_address("udp://h:1").unwrap_err();
    assert_eq!(e.message(), "Only TCP protocol is supported");
    let e = parse_core_server_address("tcp://host").unwrap_err();
    assert_eq!(e.message(), "No port specified");
    let e = parse_core_server_address("tcp://host:99999").unwrap_err();
    assert_eq!(e.message(), "number too large to fit in target type");
    assert_eq!(e.message(), "99999".parse::<u16>().unwrap_err().to_string());
    let e = parse_core_server_address("tcp://host:9x").unwrap_err();
    assert_eq!(e, AddressError::InvalidPort(PortError::InvalidDigit));
    assert_eq!(e.message(), "9x".parse::<u16>().unwrap_err().to_string());
    let e = parse_core_server_address("tcp://host:+").unwrap_err();
    assert_eq!(e.message(), "+".parse::<u16>().unwrap_err().to_string());
    let e = parse_core_server_address("tcp://host:").unwrap_err();
    assert_eq!(e.message(), "".parse::<u16>().unwrap_err().to_string());
}

#[test]
fn log_context_for_request() {
    let base = LogCtx { thread_name: "worker-2".to_string(), correlation_id: String::new(), thread_id: 2 };
    let ctx = base.for_request("c-9".to_string());
    assert_eq!(ctx.thread_name, "worker-2");
    assert_eq!(ctx.thread_id, 2);
    assert_eq!(ctx.correlation_id, "c-9");
    let d = LogCtx::default();
    assert!(d.thread_name.is_empty() && d.thread_id == 0);
}

#[test]
fn environment_versions_parse_as_u32_does() {
    for text in ["7", "x", "-1", "+5", "", "4294967295", "4294967296", "007"] {
        let expected = text.parse::<u32>().unwrap_or(1);
        assert_eq!(repo_major(Some(text)), expected, "for {:?}", text);
    }
    assert_eq!(repo_major(None), 1);
}

#[test]
fn core_version_is_recorded_only_when_accepted() {
    let mut info = CoreVersionInfo::new();
    let before = info.version_reply;
    let r = record_core_version(&mut info, Err("timeout".to_string()));
    assert_eq!(r, Err("Failed to connect to core server via C++ bridge: timeout".to_string()));
    assert!(!info.is_connected);
    let other = ProtoVersionReply { api_major: 2, api_minor: 3, api_patch: 4, ..ProtoVersionReply::new() };
    let r = record_core_version(&mut info, Ok(other));
    assert_eq!(
        r,
        Err("Incompatible messaging API detected: major backwards breaking changes detected version (2.3.4)".to_string())
    );
    assert!(!info.is_connected);
    assert_eq!(info.version_reply, before);
    let newer = ProtoVersionReply { release_year: 2030, ..ProtoVersionReply::new() };
    let r = record_core_version(&mut info, Ok(newer)).unwrap();
    assert!(r.new_release_available && r.significant_api_change);
    assert!(info.is_connected);
    assert_eq!(info.version_reply, newer);
}
