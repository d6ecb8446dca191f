use embd::BuildError;
use embd::RootKind;
use embd::check_root;
use embd::resolve_sibling;
use embd::resolve_target;

#[test]
fn relative_expression_resolves_beside_the_anchor() {
    let r = resolve_target(b"src/lib.rs", b"assets").unwrap();
    assert_eq!(r, b"src/assets".to_vec());
}

#[test]
fn absolute_expression_replaces_the_anchor() {
    let r = resolve_target(b"src/lib.rs", b"/opt/data").unwrap();
    assert_eq!(r, b"/opt/data".to_vec());
}

#[test]
fn bare_anchor_resolves_in_the_empty_parent() {
    let r = resolve_target(b"lib.rs", b"assets").unwrap();
    assert_eq!(r, b"assets".to_vec());
}

#[test]
fn trailing_dotdot_means_the_anchors_directory() {
    // Joining gives "src/.."; the documented exception resolves it to the
    // directory that holds the anchor's directory entry, textually "src".
    let r = resolve_target(b"src/lib.rs", b"..").unwrap();
    assert_eq!(r, b"src".to_vec());
}

#[test]
fn dot_expression_is_rejected_as_invalid_target() {
    match resolve_target(b"src/lib.rs", b".") {
        Err(BuildError::InvalidTarget { path }) => assert_eq!(path, b"src/.".to_vec()),
        _ => panic!("expected the anchor's own location to be rejected"),
    }
}

#[test]
fn root_anchor_has_no_parent() {
    match resolve_target(b"/", b"assets") {
        Err(BuildError::NoParent { anchor }) => assert_eq!(anchor, b"/".to_vec()),
        _ => panic!("expected a missing parent"),
    }
}

#[test]
fn anchor_directly_under_root_keeps_the_root() {
    let r = resolve_target(b"/main.rs", b"assets").unwrap();
    assert_eq!(r, b"/assets".to_vec());
}

#[test]
fn sibling_resolution_does_not_rewrite_dotdot() {
    let r = resolve_sibling(b"src/main.rs", b"../assets/icon.png").unwrap();
    assert_eq!(r, b"src/../assets/icon.png".to_vec());
}

#[test]
fn sibling_of_parentless_anchor_fails() {
    match resolve_sibling(b"", b"x") {
        Err(BuildError::NoParent { anchor }) => assert_eq!(anchor, Vec::<u8>::new()),
        _ => panic!("expected a missing parent"),
    }
}

#[test]
fn missing_root_is_fatal_and_names_the_path() {
    match check_root(&RootKind::Missing, b"src/nope") {
        Err(BuildError::RootNotFound { path }) => assert_eq!(path, b"src/nope".to_vec()),
        _ => panic!("expected the unresolved path to be reported"),
    }
}

#[test]
fn plain_file_root_is_fatal() {
    match check_root(&RootKind::NonDirectory, b"src/lib.rs") {
        Err(BuildError::NotADirectory { path }) => assert_eq!(path, b"src/lib.rs".to_vec()),
        _ => panic!("expected a non-directory root to be rejected"),
    }
}

#[test]
fn directory_root_is_accepted() {
    assert!(check_root(&RootKind::Directory, b"src/assets").is_ok());
}

#[test]
fn missing_root_message_names_the_path() {
    let err = check_root(&RootKind::Missing, b"src/nope").unwrap_err();
    assert_eq!(err.message(), "failed to resolve path: src/nope");
}

#[test]
fn non_directory_message_names_the_path() {
    let err = check_root(&RootKind::NonDirectory, b"src/lib.rs").unwrap_err();
    assert_eq!(err.message(), "not a directory: src/lib.rs");
}

#[test]
fn encoding_message_renders_undecodable_bytes_printably() {
    let err = BuildError::Encoding { path: vec![0xff, b'a', 0x01] };
    assert_eq!(err.message(), "path is not valid text: ?a?");
}

#[test]
fn io_message_names_path_and_cause() {
    let err = BuildError::Io { path: b"/a/f".to_vec(), cause: "permission denied".to_string() };
    assert_eq!(err.message(), "failed to read /a/f: permission denied");
}

#[test]
fn no_parent_message_names_the_anchor() {
    let err = resolve_target(b"/", b"x").unwrap_err();
    assert_eq!(err.message(), "no parent directory for /");
}

#[test]
fn invalid_target_message_names_the_target() {
    let err = resolve_target(b"src/lib.rs", b".").unwrap_err();
    assert_eq!(err.message(), "cannot embed a non-directory target: src/.");
}
