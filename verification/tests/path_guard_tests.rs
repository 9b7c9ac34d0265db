use seal_updater::errors::ExtractError;
use seal_updater::path_guard::{bytes_eq, guard_entry, join_path, quarantine_name, split_pieces};

fn root() -> Vec<u8> {
    b"/tmp/out".to_vec()
}

fn upd() -> Vec<u8> {
    b"seal-updater".to_vec()
}

fn guard(path: &[u8]) -> Result<Vec<u8>, ExtractError> {
    guard_entry(&path.to_vec(), &root(), &upd())
}

#[test]
fn parent_component_rejected() {
    let r = guard(b"../../etc/passwd");
    assert!(matches!(r, Err(ExtractError::PathTraversal { .. })));
    if let Err(ExtractError::PathTraversal { path }) = r {
        assert_eq!(path, b"../../etc/passwd".to_vec());
    }
}

#[test]
fn nested_parent_component_rejected() {
    assert!(matches!(guard(b"a/../b"), Err(ExtractError::PathTraversal { .. })));
    assert!(matches!(guard(b"a\\..\\b"), Err(ExtractError::PathTraversal { .. })));
    assert!(matches!(guard(b"ok/.."), Err(ExtractError::PathTraversal { .. })));
}

#[test]
fn absolute_path_rejected() {
    assert!(matches!(guard(b"/etc/passwd"), Err(ExtractError::PathTraversal { .. })));
    assert!(matches!(guard(b"\\windows\\system32"), Err(ExtractError::PathTraversal { .. })));
}

#[test]
fn drive_letter_rejected() {
    assert!(matches!(guard(b"C:\\windows"), Err(ExtractError::PathTraversal { .. })));
    assert!(matches!(guard(b"c:stuff"), Err(ExtractError::PathTraversal { .. })));
}

#[test]
fn colon_beyond_the_first_piece_accepted() {
    // only a drive-letter-like prefix is rejected; a colon later in the
    // path is an ordinary file-name byte
    assert_eq!(
        guard(b"logs/10:30.txt").unwrap(),
        b"/tmp/out/logs/10:30.txt".to_vec()
    );
}

#[test]
fn empty_or_symbolic_path_rejected() {
    assert!(matches!(guard(b""), Err(ExtractError::PathTraversal { .. })));
    assert!(matches!(guard(b"."), Err(ExtractError::PathTraversal { .. })));
    assert!(matches!(guard(b"./."), Err(ExtractError::PathTraversal { .. })));
    assert!(matches!(guard(b"//"), Err(ExtractError::PathTraversal { .. })));
}

#[test]
fn plain_entry_accepted() {
    assert_eq!(guard(b"bin/app").unwrap(), b"/tmp/out/bin/app".to_vec());
    assert_eq!(guard(b"readme.txt").unwrap(), b"/tmp/out/readme.txt".to_vec());
}

#[test]
fn dotted_pieces_kept_verbatim() {
    assert_eq!(guard(b"./bin/app").unwrap(), b"/tmp/out/./bin/app".to_vec());
}

#[test]
fn reserved_name_quarantined() {
    assert_eq!(
        guard(b"seal-updater").unwrap(),
        b"/tmp/out/new_updater/seal-updater".to_vec()
    );
    assert_eq!(
        guard(b"pkg/seal-updater").unwrap(),
        b"/tmp/out/new_updater/pkg/seal-updater".to_vec()
    );
}

#[test]
fn reserved_name_checked_on_final_piece_only() {
    assert_eq!(
        guard(b"seal-updater/readme").unwrap(),
        b"/tmp/out/seal-updater/readme".to_vec()
    );
}

#[test]
fn join_respects_trailing_separator() {
    let r = join_path(&b"out/".to_vec(), &b"bin/app".to_vec());
    assert_eq!(r, b"out/bin/app".to_vec());
    let r = join_path(&b"out".to_vec(), &b"bin/app".to_vec());
    assert_eq!(r, b"out/bin/app".to_vec());
    let r = join_path(&b"".to_vec(), &b"bin/app".to_vec());
    assert_eq!(r, b"bin/app".to_vec());
}

#[test]
fn split_pieces_drops_separators() {
    let cs = split_pieces(&b"a//b\\c/".to_vec());
    let want: Vec<Vec<u8>> = vec![b"a".to_vec(), b"b".to_vec(), b"c".to_vec()];
    assert_eq!(cs, want);
}

#[test]
fn byte_helpers_behave() {
    assert!(bytes_eq(&b"gz".to_vec(), &b"gz".to_vec()));
    assert!(!bytes_eq(&b"gz".to_vec(), &b"zip".to_vec()));
    assert_eq!(quarantine_name(), b"new_updater".to_vec());
}

#[test]
fn traversal_error_describes_itself() {
    let e = guard(b"../x").unwrap_err();
    assert_eq!(
        e.message(),
        "an entry path is unsafe and could escape the target directory"
    );
}
