use file_station::errors::FileError;
use file_station::ops::{rename_request, upload_parse_fields, upload_target, RenameArgs, UploadField};
use file_station::sandbox::CanonOutcome;

#[test]
fn test_rename_request_both_checked() {
    let args = RenameArgs { from: "a.txt".to_string(), to: "b.txt".to_string() };
    let ok_from = CanonOutcome::Canonical("/srv/files/a.txt".to_string());
    let ok_to = CanonOutcome::MissingTarget;
    let (from, to) = rename_request("/srv/files", &args, &ok_from, &ok_to).unwrap();
    assert_eq!(from, "/srv/files/a.txt");
    assert_eq!(to, "/srv/files/b.txt");
    // Either endpoint escaping the root fails the whole rename.
    let bad = CanonOutcome::Canonical("/etc/passwd".to_string());
    assert!(matches!(
        rename_request("/srv/files", &args, &bad, &ok_to),
        Err(FileError::PathError)
    ));
    assert!(matches!(
        rename_request("/srv/files", &args, &ok_from, &bad),
        Err(FileError::PathError)
    ));
}

#[test]
fn test_upload_target() {
    let r = upload_target("/srv/files", "docs", "new.txt", &CanonOutcome::MissingTarget, false)
        .unwrap();
    assert_eq!(r, "/srv/files/docs/new.txt");
}

#[test]
fn test_upload_never_overwrites() {
    let out = CanonOutcome::Canonical("/srv/files/docs/old.txt".to_string());
    let r = upload_target("/srv/files", "docs", "old.txt", &out, true);
    assert!(matches!(r, Err(FileError::PathError)));
}

#[test]
fn test_upload_rejects_traversal() {
    let out = CanonOutcome::Canonical("/etc/cron.d/evil".to_string());
    let r = upload_target("/srv/files", "docs", "../../../etc/cron.d/evil", &out, false);
    assert!(matches!(r, Err(FileError::PathError)));
}


#[test]
fn test_upload_fields_complete() {
    let fields = vec![
        UploadField::FolderPath("docs".to_string()),
        UploadField::FileData(Some("new.txt".to_string()), vec![1, 2, 3]),
    ];
    let (path, name, data) = upload_parse_fields(fields).unwrap();
    assert_eq!(path, "docs");
    assert_eq!(name, "new.txt");
    assert_eq!(data, vec![1, 2, 3]);
}

#[test]
fn test_upload_fields_last_path_wins_and_rest_ignored() {
    let fields = vec![
        UploadField::FolderPath("old".to_string()),
        UploadField::FolderPath("docs".to_string()),
        UploadField::FileData(Some("a".to_string()), vec![9]),
        UploadField::Other,
    ];
    let (path, name, data) = upload_parse_fields(fields).unwrap();
    assert_eq!(path, "docs");
    assert_eq!(name, "a");
    assert_eq!(data, vec![9]);
}

#[test]
fn test_upload_fields_malformed() {
    // A file field before any path field.
    let r = upload_parse_fields(vec![UploadField::FileData(Some("n".to_string()), vec![])]);
    assert!(matches!(r, Err(FileError::ContentError)));
    // A file field without a file name.
    let r = upload_parse_fields(vec![
        UploadField::FolderPath("d".to_string()),
        UploadField::FileData(None, vec![]),
    ]);
    assert!(matches!(r, Err(FileError::ContentError)));
    // A field under an unknown name.
    let r = upload_parse_fields(vec![UploadField::Other]);
    assert!(matches!(r, Err(FileError::ContentError)));
    // No fields at all.
    let r = upload_parse_fields(Vec::new());
    assert!(matches!(r, Err(FileError::ContentError)));
}
