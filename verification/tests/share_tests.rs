use file_station::errors::FileError;
use file_station::sandbox::CanonOutcome;
use file_station::share::{
    add_share_file, delete_share, get_share_file, get_share_index, resolve_share,
    share_target_path, AddShareArgs, QueryShareArgs, ShareAction, ShareProbe, ShareStore,
};

fn share_args(path: &str, password: Option<&str>) -> AddShareArgs {
    AddShareArgs { path: path.to_string(), password: password.map(|p| p.to_string()) }
}

fn inside(root: &str, rest: &str) -> CanonOutcome {
    CanonOutcome::Canonical(format!("{}/{}", root, rest))
}

#[test]
fn test_add_share_distinct_tokens() {
    // Repeated share creation never hands out one token twice.
    let mut store = ShareStore::new();
    let root = "/srv/files";
    let mut tokens: Vec<String> = Vec::new();
    let mut i = 0;
    while i < 8 {
        let t = add_share_file(&mut store, root, &share_args("docs", None), &inside(root, "docs"))
            .unwrap();
        tokens.push(t);
        i += 1;
    }
    let mut a = 0;
    while a < tokens.len() {
        let mut b = a + 1;
        while b < tokens.len() {
            assert_ne!(tokens[a], tokens[b]);
            b += 1;
        }
        a += 1;
    }
}

#[test]
fn test_add_share_rejects_traversal() {
    let mut store = ShareStore::new();
    let r = add_share_file(
        &mut store,
        "/srv/files",
        &share_args("../etc", None),
        &CanonOutcome::Canonical("/etc".to_string()),
    );
    assert!(matches!(r, Err(FileError::PathError)));
    assert!(get_share_index(&store).is_empty());
}

#[test]
fn test_resolve_share_password_gate() {
    let mut store = ShareStore::new();
    let root = "/srv/files";
    let token = add_share_file(
        &mut store,
        root,
        &share_args("docs", Some("pw")),
        &inside(root, "docs"),
    )
    .unwrap();
    // Wrong password: content error.
    let r = resolve_share(&store, &token, &Some("nope".to_string()));
    assert!(matches!(r, Err(FileError::ContentError)));
    // Missing password where one is set: content error.
    let r = resolve_share(&store, &token, &None);
    assert!(matches!(r, Err(FileError::ContentError)));
    // Correct password: the record comes back.
    let rec = resolve_share(&store, &token, &Some("pw".to_string())).unwrap();
    assert_eq!(rec.path, "docs");
    assert_eq!(rec.url, token);
}

#[test]
fn test_resolve_share_both_passwords_absent() {
    let mut store = ShareStore::new();
    let root = "/srv/files";
    let token =
        add_share_file(&mut store, root, &share_args("docs", None), &inside(root, "docs")).unwrap();
    assert!(resolve_share(&store, &token, &None).is_ok());
    let r = resolve_share(&store, &token, &Some("x".to_string()));
    assert!(matches!(r, Err(FileError::ContentError)));
}

#[test]
fn test_resolve_share_unknown_token() {
    let store = ShareStore::new();
    let r = resolve_share(&store, &"nope".to_string(), &None);
    assert!(matches!(r, Err(FileError::PathError)));
}

#[test]
fn test_share_folder_download() {
    // Share the folder "/docs" without a password, then ask for
    // "report.pdf" inside it with the download flag: the driver is told to
    // send the raw bytes of files/docs/report.pdf.
    let mut store = ShareStore::new();
    let root = "files";
    let token = add_share_file(
        &mut store,
        root,
        &share_args("/docs", None),
        &inside(root, "docs"),
    )
    .unwrap();
    let args = QueryShareArgs {
        url: token,
        file_path: "report.pdf".to_string(),
        password: None,
        download: Some(true),
    };
    let probe = ShareProbe {
        base_is_file: false,
        canon: CanonOutcome::Canonical("files/docs/report.pdf".to_string()),
        target_is_dir: false,
    };
    let action = get_share_file(&store, root, &args, &probe).unwrap();
    match action {
        ShareAction::SendBytes(p) => assert_eq!(p, "files/docs/report.pdf"),
        _ => panic!("expected raw bytes"),
    }
}

#[test]
fn test_share_resolution_actions() {
    let mut store = ShareStore::new();
    let root = "/srv/files";
    let token =
        add_share_file(&mut store, root, &share_args("docs", None), &inside(root, "docs")).unwrap();
    // A directory target is listed.
    let args = QueryShareArgs {
        url: token.clone(),
        file_path: "sub".to_string(),
        password: None,
        download: None,
    };
    let probe = ShareProbe {
        base_is_file: false,
        canon: inside(root, "docs/sub"),
        target_is_dir: true,
    };
    match get_share_file(&store, root, &args, &probe).unwrap() {
        ShareAction::ListFolder(p) => assert_eq!(p, "/srv/files/docs/sub"),
        _ => panic!("expected a listing"),
    }
    // A file without the download flag is described.
    let args = QueryShareArgs {
        url: token,
        file_path: "a.txt".to_string(),
        password: None,
        download: Some(false),
    };
    let probe = ShareProbe {
        base_is_file: false,
        canon: inside(root, "docs/a.txt"),
        target_is_dir: false,
    };
    match get_share_file(&store, root, &args, &probe).unwrap() {
        ShareAction::Describe(p) => assert_eq!(p, "/srv/files/docs/a.txt"),
        _ => panic!("expected a descriptor"),
    }
}

#[test]
fn test_share_sub_path_revalidated() {
    // The caller-supplied sub-path is untrusted: an escaping target is
    // rejected even though the shared base path was valid.
    let mut store = ShareStore::new();
    let root = "/srv/files";
    let token =
        add_share_file(&mut store, root, &share_args("docs", None), &inside(root, "docs")).unwrap();
    let args = QueryShareArgs {
        url: token,
        file_path: "../../etc/passwd".to_string(),
        password: None,
        download: Some(true),
    };
    let probe = ShareProbe {
        base_is_file: false,
        canon: CanonOutcome::Canonical("/etc/passwd".to_string()),
        target_is_dir: false,
    };
    let r = get_share_file(&store, root, &args, &probe);
    assert!(matches!(r, Err(FileError::PathError)));
}

#[test]
fn test_share_single_file_ignores_sub_path() {
    assert_eq!(
        share_target_path("/srv/files", "report.pdf", "ignored", true),
        "/srv/files/report.pdf"
    );
    assert_eq!(share_target_path("/srv/files", "docs", "a.txt", false), "/srv/files/docs/a.txt");
    // An absolute sub-path replaces the base outright; the traversal check
    // catches it afterwards.
    assert_eq!(share_target_path("/srv/files", "docs", "/etc/passwd", false), "/etc/passwd");
}

#[test]
fn test_delete_share_exact_match_only() {
    let mut store = ShareStore::new();
    let root = "/srv/files";
    add_share_file(&mut store, root, &share_args("a", None), &inside(root, "a")).unwrap();
    add_share_file(&mut store, root, &share_args("a", None), &inside(root, "a")).unwrap();
    add_share_file(&mut store, root, &share_args("ab", None), &inside(root, "ab")).unwrap();
    delete_share(&mut store, &"a".to_string());
    let index = get_share_index(&store);
    assert_eq!(index.len(), 1);
    assert_eq!(index[0].path, Some("ab".to_string()));
}

#[test]
fn test_share_index_verbatim() {
    let mut store = ShareStore::new();
    let root = "/srv/files";
    let token = add_share_file(
        &mut store,
        root,
        &share_args("docs", Some("pw")),
        &inside(root, "docs"),
    )
    .unwrap();
    let index = get_share_index(&store);
    assert_eq!(index.len(), 1);
    assert_eq!(index[0].path, Some("docs".to_string()));
    assert_eq!(index[0].url, Some(token));
    // The stored password is returned verbatim; redaction is the caller's
    // decision.
    assert_eq!(index[0].password, Some("pw".to_string()));
}

#[test]
fn test_share_empty_sub_path_keeps_base() {
    assert_eq!(share_target_path("/srv/files", "docs", "", false), "/srv/files/docs");
}
