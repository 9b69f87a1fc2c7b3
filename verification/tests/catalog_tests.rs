use file_station::catalog::{get_folder, search_step, DirEntryInfo, File, FileKind, FsMetadata};
use file_station::errors::FileError;
use file_station::text::str_contains;

fn meta(size: u64, is_dir: bool, modified: Option<u64>) -> FsMetadata {
    FsMetadata { size, is_dir, modified }
}

#[test]
fn test_file_struct() {
    let file = File::new("files/test_folder", &meta(4096, true, Some(1000))).unwrap();
    assert_eq!(file.name, "test_folder");
    let file = file.absolute_path("files", "files").unwrap();
    assert_eq!(file.absolute_path, Some("test_folder".to_string()));
}

#[test]
fn test_file_new_fields() {
    let f = File::new("/srv/files/report.pdf", &meta(17, false, Some(1234))).unwrap();
    assert_eq!(f.name, "report.pdf");
    assert_eq!(f.size, 17);
    assert_eq!(f.kind, FileKind::File);
    assert_eq!(f.last_modified_time, 1234);
    assert_eq!(f.absolute_path, None);
}

#[test]
fn test_file_new_clock_failure_defaults_to_zero() {
    let f = File::new("/srv/files/a", &meta(1, false, None)).unwrap();
    assert_eq!(f.last_modified_time, 0);
}

#[test]
fn test_file_new_without_final_segment_fails() {
    assert!(matches!(File::new("/srv/files/", &meta(0, true, None)), Err(FileError::PathError)));
    assert!(matches!(File::new("", &meta(0, false, None)), Err(FileError::PathError)));
}

#[test]
fn test_absolute_path_nested() {
    let f = File::new("/srv/files/docs/a.txt", &meta(1, false, None)).unwrap();
    let f = f.absolute_path("/srv/files/docs", "/srv/files").unwrap();
    assert_eq!(f.absolute_path, Some("docs/a.txt".to_string()));
}

#[test]
fn test_absolute_path_outside_root_fails() {
    let f = File::new("/etc/passwd", &meta(1, false, None)).unwrap();
    assert!(f.absolute_path("/etc", "/srv/files").is_none());
}

#[test]
fn test_read_dir_skips_failed_entries() {
    let entries = vec![
        DirEntryInfo { path: "/srv/files/a".to_string(), meta: meta(1, false, Some(5)) },
        DirEntryInfo { path: "/srv/files/".to_string(), meta: meta(0, true, None) },
        DirEntryInfo { path: "/srv/files/b".to_string(), meta: meta(2, true, Some(6)) },
    ];
    let files = File::read_dir(&entries);
    assert_eq!(files.len(), 2);
    assert_eq!(files[0].name, "a");
    assert_eq!(files[1].name, "b");
    assert_eq!(files[1].kind, FileKind::Folder);
}

#[test]
fn test_get_folder_rejects_non_directory() {
    let entries: Vec<DirEntryInfo> = Vec::new();
    assert!(matches!(get_folder(false, &entries), Err(FileError::PathError)));
    assert!(get_folder(true, &entries).unwrap().is_empty());
}

#[test]
fn test_search_step_collects_matches_and_subfolders() {
    let folder = "/srv/files/docs".to_string();
    let files = vec![
        File::new("/srv/files/docs/sub", &meta(0, true, None)).unwrap(),
        File::new("/srv/files/docs/report.pdf", &meta(9, false, Some(7))).unwrap(),
        File::new("/srv/files/docs/notes.txt", &meta(3, false, Some(8))).unwrap(),
    ];
    let mut found: Vec<File> = Vec::new();
    let mut pending: Vec<String> = Vec::new();
    search_step(&folder, &files, "re", &mut found, &mut pending, "/srv/files");
    assert_eq!(pending, vec!["/srv/files/docs/sub".to_string()]);
    assert_eq!(found.len(), 1);
    assert_eq!(found[0].name, "report.pdf");
    assert_eq!(found[0].absolute_path, Some("docs/report.pdf".to_string()));
}

#[test]
fn test_search_step_is_case_sensitive() {
    let folder = "/srv/files".to_string();
    let files = vec![File::new("/srv/files/README", &meta(1, false, None)).unwrap()];
    let mut found: Vec<File> = Vec::new();
    let mut pending: Vec<String> = Vec::new();
    search_step(&folder, &files, "read", &mut found, &mut pending, "/srv/files");
    assert!(found.is_empty());
    search_step(&folder, &files, "READ", &mut found, &mut pending, "/srv/files");
    assert_eq!(found.len(), 1);
}

#[test]
fn test_str_contains() {
    assert!(str_contains("hello", "ell"));
    assert!(str_contains("hello", ""));
    assert!(str_contains("hello", "hello"));
    assert!(!str_contains("hello", "xyz"));
    assert!(!str_contains("he", "hello"));
}

#[test]
fn test_kind_strings() {
    assert_eq!(FileKind::File.as_str(), "file");
    assert_eq!(FileKind::Folder.as_str(), "folder");
}
