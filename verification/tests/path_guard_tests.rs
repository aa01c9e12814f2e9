use backend_service::path_guard::{
    is_within, relative_traversal_report, safe_join, safety_check_only, security_event,
    traversal_report, SafeFsError, TargetKind,
};

#[test]
fn resolve_accepts_a_path_below_the_root() {
    let resolved = safe_join("/srv/data/users/alice", "sub/dir/file.txt").unwrap();
    assert_eq!(resolved, "/srv/data/users/alice/sub/dir/file.txt");
}

#[test]
fn resolve_rejects_a_path_that_climbs_out_of_the_root() {
    let refused = safe_join("/srv/data/users/alice", "../../etc/passwd");
    assert!(matches!(refused, Err(SafeFsError::PathTraversalDetected)));
}

#[test]
fn resolve_normalises_dots_inside_the_root() {
    let resolved = safe_join("/srv/data/./users/alice", "a/../b/./c.txt").unwrap();
    assert_eq!(resolved, "/srv/data/users/alice/b/c.txt");
}

#[test]
fn resolve_rejects_an_absolute_target_elsewhere() {
    let refused = safe_join("/srv/data/users/alice", "/etc/passwd");
    assert!(matches!(refused, Err(SafeFsError::PathTraversalDetected)));
}

#[test]
fn resolve_rejects_a_sibling_with_the_root_as_name_prefix() {
    let refused = safe_join("/srv/data/users/alice", "../alice2/file.txt");
    assert!(matches!(refused, Err(SafeFsError::PathTraversalDetected)));
}

#[test]
fn check_accepts_a_full_path_inside_the_base() {
    let checked = safety_check_only("/srv/data", "/srv/data/common/./tables/t1.csv").unwrap();
    assert_eq!(checked, "/srv/data/common/tables/t1.csv");
}

#[test]
fn check_rejects_a_full_path_outside_the_base() {
    let refused = safety_check_only("/srv/data", "/srv/data/../secrets/key");
    assert!(matches!(refused, Err(SafeFsError::PathTraversalDetected)));
}

#[test]
fn traversal_message_does_not_name_a_path() {
    let message = SafeFsError::PathTraversalDetected.message();
    assert_eq!(message, "Path traversal attempt detected: target is outside base directory");
}

#[test]
fn the_security_event_names_both_paths() {
    assert_eq!(
        traversal_report("/srv/data/./users", "/srv/data/users/../../etc/passwd"),
        "Path traversal detected: /srv/data/users <- /srv/etc/passwd"
    );
}

#[test]
fn a_path_lies_within_a_root_by_whole_components() {
    assert!(is_within("/srv/data", "/srv/data"));
    assert!(is_within("/srv/data/a.txt", "/srv/data"));
    assert!(!is_within("/srv/database", "/srv/data"));
    assert!(!is_within("/srv", "/srv/data"));
    assert!(is_within("/etc", "/"));
    assert!(is_within("/", "/"));
    assert!(!is_within("etc", "/"));
    assert!(is_within("data/a", "data"));
    assert!(!is_within("", "data"));
}

#[test]
fn resolve_works_below_the_root_of_the_file_system_and_below_relative_roots() {
    assert_eq!(safe_join("/", "etc/hosts").unwrap(), "/etc/hosts");
    assert_eq!(safe_join("data/users", "a/../b.txt").unwrap(), "data/users/b.txt");
    assert_eq!(safe_join("/srv/data/", "").unwrap(), "/srv/data");
    assert!(matches!(safe_join("data", "../data2/x"), Err(SafeFsError::PathTraversalDetected)));
    assert!(matches!(safe_join("/srv/data", ".."), Err(SafeFsError::PathTraversalDetected)));
}

#[test]
fn the_security_event_of_a_relative_target_names_where_it_would_have_led() {
    assert_eq!(
        relative_traversal_report("/srv/data/./users/alice", "../../etc/passwd"),
        "Path traversal detected: /srv/data/users/alice <- /srv/data/etc/passwd"
    );
    assert_eq!(
        relative_traversal_report("/srv/data", "/etc/passwd"),
        "Path traversal detected: /srv/data <- /etc/passwd"
    );
}

#[test]
fn only_a_traversal_attempt_is_a_security_event() {
    let refused = SafeFsError::PathTraversalDetected;
    assert_eq!(
        security_event(&refused, "/srv/data", "../x", TargetKind::Relative),
        Some("Path traversal detected: /srv/data <- /srv/x".to_string())
    );
    assert_eq!(
        security_event(&refused, "/srv/data", "/srv/data/../x", TargetKind::Full),
        Some("Path traversal detected: /srv/data <- /srv/x".to_string())
    );
    let failed = SafeFsError::Io("disk full".to_string());
    assert_eq!(security_event(&failed, "/srv/data", "../x", TargetKind::Relative), None);
    assert_eq!(security_event(&failed, "/srv/data", "/x", TargetKind::Full), None);
}

#[test]
fn every_refusal_of_resolve_has_its_event() {
    for target in ["../../etc/passwd", "/etc/passwd", "..", "a/../../b"] {
        let refused = safe_join("/srv/data/users/alice", target).unwrap_err();
        let event =
            security_event(&refused, "/srv/data/users/alice", target, TargetKind::Relative);
        assert!(event.unwrap().starts_with("Path traversal detected: /srv/data/users/alice <- "));
    }
}
