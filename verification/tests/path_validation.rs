use vecsim::security_utils::quick_validate_path;
use vecsim::security_utils::SecurityUtils;

#[test]
fn a_relative_path_is_rooted_at_the_base() {
    let s = SecurityUtils::new();
    let r = s.validate_path("sub/file.txt".to_string(), "/data".to_string(), None);
    assert!(r.is_valid);
    assert_eq!(r.sanitized_path.as_deref(), Some("/data/sub/file.txt"));
    assert!(r.error.is_none());
}

#[test]
fn parent_segments_are_resolved_away() {
    let s = SecurityUtils::new();
    let r = s.validate_path("a/../b/./c".to_string(), "/data".to_string(), None);
    assert!(r.is_valid);
    assert_eq!(r.sanitized_path.as_deref(), Some("/data/b/c"));
    // popping past the first segment cannot escape the base
    let r = s.validate_path("../../../x".to_string(), "/data".to_string(), None);
    assert!(r.is_valid);
    assert_eq!(r.sanitized_path.as_deref(), Some("/data/x"));
}

#[test]
fn nul_bytes_are_rejected() {
    let s = SecurityUtils::new();
    let r = s.validate_path("bad\0path".to_string(), "/data".to_string(), None);
    assert!(!r.is_valid);
    assert_eq!(r.error.as_deref(), Some("Path contains null bytes"));
    assert!(r.sanitized_path.is_none());
}

#[test]
fn a_resolution_outside_the_base_is_traversal() {
    let s = SecurityUtils::new();
    let r = s.validate_path(
        "x".to_string(),
        "/data".to_string(),
        Some("/etc/passwd".to_string()),
    );
    assert!(!r.is_valid);
    assert_eq!(r.error.as_deref(), Some("Path traversal detected"));
    // a sibling whose name merely extends the base is outside it too
    let r = s.validate_path(
        "x".to_string(),
        "/data".to_string(),
        Some("/database/x".to_string()),
    );
    assert!(!r.is_valid);
    assert_eq!(r.error.as_deref(), Some("Path traversal detected"));
}

#[test]
fn dangerous_patterns_are_named_in_the_error() {
    let s = SecurityUtils::new();
    let r = s.validate_path(
        "x".to_string(),
        "/data".to_string(),
        Some("/data/a~b".to_string()),
    );
    assert!(!r.is_valid);
    assert_eq!(r.error.as_deref(), Some("Dangerous pattern '~' detected"));
    let r = s.validate_path(
        "x".to_string(),
        "/data".to_string(),
        Some("/data/..x".to_string()),
    );
    assert_eq!(r.error.as_deref(), Some("Dangerous pattern '..' detected"));
    let r = s.validate_path("a$b".to_string(), "/data".to_string(), None);
    assert_eq!(r.error.as_deref(), Some("Dangerous pattern '$' detected"));
}

#[test]
fn an_empty_path_normalizes_to_the_base() {
    let s = SecurityUtils::new();
    let r = s.validate_path(String::new(), "/data".to_string(), None);
    assert!(r.is_valid);
    assert_eq!(r.sanitized_path.as_deref(), Some("/data"));
}

#[test]
fn quick_validation_reports_the_verdict() {
    assert!(quick_validate_path(
        "ok/file".to_string(),
        "/data".to_string(),
        None
    ));
    assert!(!quick_validate_path(
        "bad\0".to_string(),
        "/data".to_string(),
        None
    ));
    assert!(!quick_validate_path(
        "x".to_string(),
        "/data".to_string(),
        Some("/elsewhere".to_string())
    ));
}
