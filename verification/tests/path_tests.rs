use repo_server_rs::path_utils::{AmbiguityCheck, PathError, PathSanitizer};

const TEMP_DIR: &str = "/tmp/test_path_sanitization";

#[test]
fn test_path_sanitization() {
    let sanitizer = PathSanitizer::new(TEMP_DIR);

    // Test relative path
    let result = sanitizer.sanitize_path("test/file.txt").unwrap();
    assert_eq!(result.local_path, format!("{}/test/file.txt", TEMP_DIR));
    assert!(!result.is_ambiguous);

    // Test absolute path
    let result = sanitizer.sanitize_path("/test/file.txt").unwrap();
    assert_eq!(result.local_path, format!("{}/test/file.txt", TEMP_DIR));
    assert!(!result.is_ambiguous);
}

#[test]
fn path_utils_test_security_validation() {
    let temp_dir = "/tmp/test_security";
    let sanitizer = PathSanitizer::new(temp_dir);

    // Valid path
    let valid_path = format!("{}/valid/file.txt", temp_dir);
    assert!(sanitizer.validate_path_security(&valid_path).is_ok());

    // Invalid path (path traversal)
    let invalid_path = format!("{}/../other/file.txt", temp_dir);
    assert!(sanitizer.validate_path_security(&invalid_path).is_err());
}

#[test]
fn test_path_sanitizer_creation() {
    let temp_dir = "/tmp/sanitizer_creation";
    let sanitizer = PathSanitizer::new(temp_dir);
    assert_eq!(sanitizer.globus_collection_path(), temp_dir);
}

#[test]
fn test_sanitize_relative_path() {
    let temp_dir = "/tmp/sanitize_relative";
    let sanitizer = PathSanitizer::new(temp_dir);

    let result = sanitizer.sanitize_path("test/file.txt").unwrap();
    assert_eq!(result.local_path, format!("{}/test/file.txt", temp_dir));
    assert!(!result.is_ambiguous);
}

#[test]
fn test_sanitize_absolute_path() {
    let temp_dir = "/tmp/sanitize_absolute";
    let sanitizer = PathSanitizer::new(temp_dir);

    let result = sanitizer.sanitize_path("/test/file.txt").unwrap();
    assert_eq!(result.local_path, format!("{}/test/file.txt", temp_dir));
    assert!(!result.is_ambiguous);
}

#[test]
fn test_sanitize_empty_path() {
    let sanitizer = PathSanitizer::new("/tmp/sanitize_empty");

    let result = sanitizer.sanitize_path("");
    assert!(result.is_err());
}

#[test]
fn tests_test_security_validation() {
    let temp_dir = "/tmp/security_validation";
    let sanitizer = PathSanitizer::new(temp_dir);

    // Valid path
    let valid_path = format!("{}/valid/file.txt", temp_dir);
    assert!(sanitizer.validate_path_security(&valid_path).is_ok());

    // Invalid path (path traversal)
    let invalid_path = format!("{}/../other/file.txt", temp_dir);
    assert!(sanitizer.validate_path_security(&invalid_path).is_err());
}

#[test]
fn sanitize_edge_cases() {
    let sanitizer = PathSanitizer::new("/data/");
    assert_eq!(sanitizer.sanitize_path("a/b///").unwrap().local_path, "/data/a/b");
    assert_eq!(sanitizer.sanitize_path("/data/x/").unwrap().local_path, "/data/x");
    assert_eq!(sanitizer.sanitize_path("/").unwrap().local_path, "/data//");
    match sanitizer.sanitize_path("") {
        Err(PathError::InvalidPath(d)) => assert_eq!(d, "Empty path"),
        _ => panic!("expected an invalid path"),
    }
    let plain = PathSanitizer::new("/data");
    assert_eq!(plain.sanitize_path("x").unwrap().local_path, "/data/x");
    assert_eq!(plain.sanitize_path("/data").unwrap().local_path, "/data");
}

#[test]
fn security_messages() {
    let sanitizer = PathSanitizer::new("/data");
    match sanitizer.validate_path_security("/etc/passwd") {
        Err(PathError::SecurityViolation(d)) => {
            assert_eq!(d, "Path '/etc/passwd' is not within base path '/data'")
        }
        _ => panic!("expected a refusal"),
    }
    match sanitizer.validate_path_security("/data//x") {
        Err(e @ PathError::SecurityViolation(_)) => assert_eq!(
            e.message(),
            "Security violation: path Path '/data//x' contains dangerous patterns is outside base root"
        ),
        _ => panic!("expected a refusal"),
    }
    assert!(sanitizer.validate_path_security("/data/a.b/c").is_ok());
    assert_eq!(
        PathError::PathAmbiguity("a".to_string(), "b".to_string()).message(),
        "Path ambiguity: both a and b exist"
    );
    assert_eq!(PathError::InvalidPath("x".to_string()).message(), "Invalid path: x");
}

#[test]
fn ambiguity_resolution() {
    let sanitizer = PathSanitizer::new("/data");
    match sanitizer.handle_ambiguous_path("/data/x", "/data") {
        AmbiguityCheck::Resolved(sp) => assert_eq!(sp.local_path, "/data/x"),
        _ => panic!("expected a resolved path"),
    }
    match sanitizer.handle_ambiguous_path("x/y", "/data") {
        AmbiguityCheck::Probe { local_path_1, local_path_2 } => {
            assert_eq!(local_path_1, "/data/x/y");
            assert_eq!(local_path_2, "/x/y");
        }
        _ => panic!("expected candidates"),
    }
    let r = sanitizer.resolve_ambiguous_path("/data/x".to_string(), "/x".to_string(), true, true);
    assert!(matches!(r, Err(PathError::PathAmbiguity(_, _))));
    let r = sanitizer.resolve_ambiguous_path("/data/x".to_string(), "/x".to_string(), true, false);
    assert_eq!(r.unwrap().local_path, "/data/x");
    let r = sanitizer.resolve_ambiguous_path("/data/x".to_string(), "/x".to_string(), false, false);
    assert_eq!(r.unwrap().local_path, "/x");
    let r = sanitizer.resolve_ambiguous_path("/x".to_string(), "/x".to_string(), true, true);
    assert_eq!(r.unwrap().local_path, "/x");
}

#[test]
fn prefix_comparison() {
    let sanitizer = PathSanitizer::new("/data");
    assert!(sanitizer.prefixes_equal("abcd", "abxy", 2));
    assert!(!sanitizer.prefixes_equal("abcd", "abxy", 3));
    assert!(!sanitizer.prefixes_equal("ab", "abxy", 3));
    assert!(sanitizer.prefixes_equal("é", "é", 2));
}

#[test]
fn security_check_compares_whole_components() {
    let sanitizer = PathSanitizer::new("/data");
    assert!(sanitizer.validate_path_security("/data").is_ok());
    assert!(sanitizer.validate_path_security("/data/x").is_ok());
    assert!(sanitizer.validate_path_security("/data2/x").is_err());
    assert!(sanitizer.validate_path_security("/database").is_err());
    let with_slash = PathSanitizer::new("/data/");
    assert!(with_slash.validate_path_security("/data").is_ok());
    assert!(with_slash.validate_path_security("/data/x").is_ok());
    assert!(with_slash.validate_path_security("/data2").is_err());
}
