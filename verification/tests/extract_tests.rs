use std::io::Write;

use seal_updater::dispatch::{decompress, depress, dispatch_extension, ArchiveFormat};
use seal_updater::errors::ExtractError;
use seal_updater::plan::{plan_entries, EntryKind};
use seal_updater::targz::extract_targz;
use seal_updater::zip_ext::extract_zip;
use seal_updater::Config;

fn cfg() -> Config {
    Config { upd_name: b"seal-updater".to_vec(), verbose: false }
}

fn root() -> Vec<u8> {
    b"/tmp/out".to_vec()
}

/// Builds a zip archive in memory: `Some(bytes)` is a regular file, `None`
/// a directory.
fn make_zip(entries: &[(&str, Option<&[u8]>)]) -> Vec<u8> {
    let mut w = zip::ZipWriter::new(std::io::Cursor::new(Vec::new()));
    let opts = zip::write::SimpleFileOptions::default();
    for (name, data) in entries {
        match data {
            Some(d) => {
                w.start_file(*name, opts).unwrap();
                w.write_all(d).unwrap();
            }
            None => {
                w.add_directory(*name, opts).unwrap();
            }
        }
    }
    w.finish().unwrap().into_inner()
}

/// Builds a gzip-compressed tar archive in memory.
fn make_targz(entries: &[(&str, Option<&[u8]>)]) -> Vec<u8> {
    let enc = flate2::write::GzEncoder::new(Vec::new(), flate2::Compression::default());
    let mut b = tar::Builder::new(enc);
    for (name, data) in entries {
        match data {
            Some(d) => {
                let mut h = tar::Header::new_gnu();
                h.set_size(d.len() as u64);
                h.set_entry_type(tar::EntryType::Regular);
                h.set_mode(0o644);
                b.append_data(&mut h, name, &d[..]).unwrap();
            }
            None => {
                let mut h = tar::Header::new_gnu();
                h.set_size(0);
                h.set_entry_type(tar::EntryType::Directory);
                h.set_mode(0o755);
                b.append_data(&mut h, name, std::io::empty()).unwrap();
            }
        }
    }
    let enc = b.into_inner().unwrap();
    enc.finish().unwrap()
}

#[test]
fn zip_round_trip_plans_every_entry() {
    let data = make_zip(&[("bin/app", Some(b"0123456789")), ("data", None)]);
    let rep = extract_zip(&data, &root(), &cfg()).unwrap();
    assert_eq!(rep.actions.len(), 2);
    assert_eq!(rep.actions[0].dest, b"/tmp/out/bin/app".to_vec());
    assert_eq!(rep.actions[0].kind, EntryKind::Regular);
    assert_eq!(rep.actions[0].data, b"0123456789".to_vec());
    assert_eq!(rep.actions[1].dest, b"/tmp/out/data/".to_vec());
    assert_eq!(rep.actions[1].kind, EntryKind::Directory);
    assert_eq!(rep.progress.completed, 2);
    assert_eq!(rep.progress.total, Some(2));
}

#[test]
fn zip_traversal_aborts_with_nothing_planned() {
    let data = make_zip(&[("../../etc/passwd", Some(b"owned")), ("ok.txt", Some(b"x"))]);
    let err = extract_zip(&data, &root(), &cfg()).unwrap_err();
    match err {
        ExtractError::PathTraversal { path } => {
            assert_eq!(path, b"../../etc/passwd".to_vec());
        }
        other => panic!("expected PathTraversal, got {:?}", other),
    }
}

#[test]
fn zip_reserved_entry_quarantined() {
    let data = make_zip(&[("seal-updater", Some(b"self"))]);
    let rep = extract_zip(&data, &root(), &cfg()).unwrap();
    assert_eq!(rep.actions[0].dest, b"/tmp/out/new_updater/seal-updater".to_vec());
}

#[test]
fn zip_extraction_is_repeatable() {
    // re-extracting the same archive plans the same overwrites; there is
    // no "already exists" failure for regular files
    let data = make_zip(&[("bin/app", Some(b"abc"))]);
    let first = extract_zip(&data, &root(), &cfg()).unwrap();
    let second = extract_zip(&data, &root(), &cfg()).unwrap();
    assert_eq!(first.actions.len(), second.actions.len());
    assert_eq!(first.actions[0].dest, second.actions[0].dest);
    assert_eq!(first.actions[0].data, second.actions[0].data);
}

#[test]
fn zip_garbage_is_open_failure() {
    let data = b"certainly not a zip archive".to_vec();
    assert!(matches!(
        extract_zip(&data, &root(), &cfg()),
        Err(ExtractError::OpenFailure)
    ));
}

#[test]
fn targz_round_trip_plans_every_entry() {
    let data = make_targz(&[("bin/app", Some(b"0123456789")), ("data/", None)]);
    let rep = extract_targz(&data, &root(), &cfg(), true).unwrap();
    assert_eq!(rep.actions.len(), 2);
    assert_eq!(rep.actions[0].dest, b"/tmp/out/bin/app".to_vec());
    assert_eq!(rep.actions[0].kind, EntryKind::Regular);
    assert_eq!(rep.actions[0].data, b"0123456789".to_vec());
    assert_eq!(rep.actions[1].kind, EntryKind::Directory);
    assert_eq!(rep.progress.completed, 2);
    assert_eq!(rep.progress.total, Some(2));
}

#[test]
fn targz_without_rewind_reports_unknown_total() {
    let data = make_targz(&[("a.txt", Some(b"one")), ("b.txt", Some(b"two"))]);
    let rep = extract_targz(&data, &root(), &cfg(), false).unwrap();
    assert_eq!(rep.progress.total, None);
    assert_eq!(rep.progress.completed, 2);
    assert_eq!(rep.actions.len(), 2);
    assert_eq!(rep.actions[1].data, b"two".to_vec());
}

#[test]
fn targz_traversal_aborts() {
    // the tar builder refuses `..` itself, so write the raw header name
    // directly, the way a hostile archive would arrive
    let enc = flate2::write::GzEncoder::new(Vec::new(), flate2::Compression::default());
    let mut b = tar::Builder::new(enc);
    let mut h = tar::Header::new_old();
    h.as_old_mut().name[..7].copy_from_slice(b"../evil");
    h.set_size(1);
    h.set_entry_type(tar::EntryType::Regular);
    h.set_mode(0o644);
    h.set_cksum();
    b.append(&h, &b"x"[..]).unwrap();
    let data = b.into_inner().unwrap().finish().unwrap();
    let err = extract_targz(&data, &root(), &cfg(), true).unwrap_err();
    match err {
        ExtractError::PathTraversal { path } => assert_eq!(path, b"../evil".to_vec()),
        other => panic!("expected PathTraversal, got {:?}", other),
    }
}

#[test]
fn targz_garbage_is_open_failure() {
    let data = b"not gzip at all".to_vec();
    assert!(matches!(
        extract_targz(&data, &root(), &cfg(), true),
        Err(ExtractError::OpenFailure)
    ));
}

#[test]
fn extension_dispatch_routes_by_lowercased_extension() {
    assert!(matches!(
        dispatch_extension(&b"update.zip".to_vec()),
        Ok(ArchiveFormat::Zip)
    ));
    assert!(matches!(
        dispatch_extension(&b"UPDATE.ZIP".to_vec()),
        Ok(ArchiveFormat::Zip)
    ));
    assert!(matches!(
        dispatch_extension(&b"release.tar.gz".to_vec()),
        Ok(ArchiveFormat::TarGz)
    ));
    assert!(matches!(
        dispatch_extension(&b"release.tar.GZ".to_vec()),
        Ok(ArchiveFormat::TarGz)
    ));
}

#[test]
fn extension_dispatch_rejects_rar() {
    assert!(matches!(
        dispatch_extension(&b"update.rar".to_vec()),
        Err(ExtractError::UnsupportedFormat)
    ));
}

#[test]
fn extension_dispatch_rejects_missing_extension() {
    assert!(matches!(
        dispatch_extension(&b"archive".to_vec()),
        Err(ExtractError::UnsupportedFormat)
    ));
    // a name that is nothing but a dotted extension has no extension
    assert!(matches!(
        dispatch_extension(&b".zip".to_vec()),
        Err(ExtractError::UnsupportedFormat)
    ));
}

#[test]
fn extension_dispatch_rejects_empty_path() {
    assert!(matches!(
        dispatch_extension(&b"".to_vec()),
        Err(ExtractError::EmptyPath)
    ));
}

#[test]
fn depress_routes_rar_to_unsupported_and_extracts_nothing() {
    let data = make_zip(&[("bin/app", Some(b"x"))]);
    let r = depress(&b"update.rar".to_vec(), &data, &root(), &cfg(), true);
    assert!(matches!(r, Err(ExtractError::UnsupportedFormat)));
}

#[test]
fn depress_extracts_zip_by_extension() {
    let data = make_zip(&[("bin/app", Some(b"ten bytes!"))]);
    let rep = depress(&b"update.zip".to_vec(), &data, &root(), &cfg(), true).unwrap();
    assert_eq!(rep.actions[0].data, b"ten bytes!".to_vec());
}

#[test]
fn depress_extracts_targz_by_extension() {
    let data = make_targz(&[("bin/app", Some(b"ten bytes!"))]);
    let rep = depress(&b"update.tar.gz".to_vec(), &data, &root(), &cfg(), true).unwrap();
    assert_eq!(rep.actions[0].data, b"ten bytes!".to_vec());
}

#[test]
fn depress_rejects_empty_path() {
    let r = depress(&b"".to_vec(), &Vec::new(), &root(), &cfg(), true);
    assert!(matches!(r, Err(ExtractError::EmptyPath)));
}

#[test]
fn decompress_sniffs_zip_content() {
    let data = make_zip(&[("bin/app", Some(b"zipped"))]);
    let rep = decompress(&b"update.bin".to_vec(), &data, &root(), &cfg(), true).unwrap();
    assert_eq!(rep.actions[0].data, b"zipped".to_vec());
    assert_eq!(rep.progress.total, Some(1));
}

#[test]
fn decompress_falls_back_to_targz() {
    let data = make_targz(&[("bin/app", Some(b"tarred"))]);
    let rep = decompress(&b"update.bin".to_vec(), &data, &root(), &cfg(), true).unwrap();
    assert_eq!(rep.actions[0].data, b"tarred".to_vec());
}

#[test]
fn decompress_garbage_is_open_failure() {
    let data = b"neither zip nor gzip".to_vec();
    let r = decompress(&b"update.bin".to_vec(), &data, &root(), &cfg(), true);
    assert!(matches!(r, Err(ExtractError::OpenFailure)));
}

#[test]
fn decompress_rejects_empty_path() {
    let data = make_zip(&[("bin/app", Some(b"x"))]);
    let r = decompress(&b"".to_vec(), &data, &root(), &cfg(), true);
    assert!(matches!(r, Err(ExtractError::EmptyPath)));
}

#[test]
fn plan_reports_first_unsafe_entry() {
    let entries: Vec<(Vec<u8>, bool, Vec<u8>)> = vec![
        (b"ok/one".to_vec(), false, b"1".to_vec()),
        (b"../bad".to_vec(), false, b"2".to_vec()),
        (b"../worse".to_vec(), false, b"3".to_vec()),
    ];
    let err = plan_entries(&entries, &root(), &b"seal-updater".to_vec()).unwrap_err();
    match err {
        ExtractError::PathTraversal { path } => assert_eq!(path, b"../bad".to_vec()),
        other => panic!("expected PathTraversal, got {:?}", other),
    }
}

#[test]
fn error_messages_name_each_failure() {
    assert_eq!(ExtractError::EmptyPath.message(), "no archive path was given");
    assert_eq!(ExtractError::OpenFailure.message(), "the archive could not be opened");
    assert_eq!(
        ExtractError::UnsupportedFormat.message(),
        "the archive format is not supported"
    );
    assert_eq!(
        ExtractError::IoFailure.message(),
        "reading an entry out of the archive failed"
    );
}
