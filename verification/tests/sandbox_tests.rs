use file_station::config::Config;
use file_station::errors::FileError;
use file_station::sandbox::{
    concat_path_str, is_traversal, path_starts_with, resolve, strip_root, CanonOutcome,
    CheckedPath,
};

#[test]
fn test_traversal() {
    // A path that exists under the root and canonicalizes inside it.
    assert_eq!(
        is_traversal(
            "/repo/files",
            "files/test_file",
            &CanonOutcome::Canonical("/repo/files/test_file".to_string()),
        ),
        false
    );
    // A path that canonicalizes outside the root.
    assert_eq!(
        is_traversal("/repo/files", "src", &CanonOutcome::Canonical("/repo/src".to_string())),
        true
    );
    assert_eq!(
        is_traversal(
            "/repo/files",
            "/etc/passwd",
            &CanonOutcome::Canonical("/etc/passwd".to_string()),
        ),
        true
    );
}

#[test]
fn test_resolve_under_root() {
    let out = CanonOutcome::Canonical("/srv/files/docs/a.txt".to_string());
    let r = resolve("/srv/files", "docs/a.txt", &out).unwrap();
    assert_eq!(r.path(), "/srv/files/docs/a.txt");
    assert!(path_starts_with(r.path().as_str(), "/srv/files"));
}

#[test]
fn test_resolve_escape_fails() {
    let out = CanonOutcome::Canonical("/etc/passwd".to_string());
    let r = resolve("/srv/files", "../../etc/passwd", &out);
    assert!(matches!(r, Err(FileError::PathError)));
}

#[test]
fn test_resolve_missing_target_allowed() {
    // A target that does not exist yet (a new upload) is allowed and judged
    // on its raw joined form.
    let r = resolve("/srv/files", "newfile.txt", &CanonOutcome::MissingTarget).unwrap();
    assert_eq!(r.into_path(), "/srv/files/newfile.txt");
}

#[test]
fn test_resolve_unresolvable_fails() {
    let r = resolve("/srv/files", "weird", &CanonOutcome::Unresolvable);
    assert!(matches!(r, Err(FileError::PathError)));
}

#[test]
fn test_concat_strips_leading_separators() {
    assert_eq!(concat_path_str("/srv/files", "/etc/passwd"), "/srv/files/etc/passwd");
    assert_eq!(concat_path_str("/srv/files", "///x"), "/srv/files/x");
    assert_eq!(concat_path_str("/srv/files", "docs"), "/srv/files/docs");
}

#[test]
fn test_component_wise_prefix() {
    assert!(path_starts_with("/srv/files/docs", "/srv/files"));
    assert!(path_starts_with("/srv/files", "/srv/files"));
    assert!(!path_starts_with("/srv/files2/docs", "/srv/files"));
    assert!(!path_starts_with("/srv", "/srv/files"));
}

#[test]
fn test_strip_root() {
    assert_eq!(strip_root("/srv/files/docs", "/srv/files"), Some("docs".to_string()));
    assert_eq!(strip_root("/srv/files", "/srv/files"), Some(String::new()));
    assert_eq!(strip_root("/etc/passwd", "/srv/files"), None);
}

#[test]
fn test_from_request_percent_decodes() {
    let r = CheckedPath::from_request("my%20docs", "/srv/files", &CanonOutcome::MissingTarget)
        .unwrap();
    assert_eq!(r.path(), "/srv/files/my docs");
}

#[test]
fn test_from_request_bad_encoding_fails() {
    // %FF is not valid UTF-8 after decoding.
    let r = CheckedPath::from_request("%FF%FE", "/srv/files", &CanonOutcome::MissingTarget);
    assert!(matches!(r, Err(FileError::PathError)));
}

#[test]
fn test_config_defaults() {
    let c = Config::new();
    assert_eq!(c.folder_path, "./files");
    assert_eq!(c.database_path, "./database.db");
    assert_eq!(c.listen_addr, "127.0.0.1:5000");
    assert!(c.can_register);
    assert_eq!(c.salt, "AAAABBBBCCCCDDDD");
}

#[test]
fn test_error_messages() {
    assert_eq!(FileError::IoError.message(), "Io Error");
    assert_eq!(FileError::PathError.message(), "Path Error");
    assert_eq!(FileError::UploadError.message(), "Upload Error");
    assert_eq!(FileError::ContentError.message(), "Content error");
    assert_eq!(FileError::DatabaseError.message(), "Database error");
    assert_eq!(FileError::ServerError.message(), "Server error");
}
