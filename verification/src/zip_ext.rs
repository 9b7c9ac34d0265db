//! ZipExtractor: walks a zip archive held in memory, entry by entry in
//! physical order, validating every recorded path with PathGuard and
//! planning the writes.
//!
//! Entry names are taken raw, as recorded in the archive, and validated by
//! PathGuard's own piece rule — the same rule the tar extractor applies —
//! rather than by the backend's built-in enclosed-name resolution, so the
//! safety decision is proved once and holds for both backends.
//!
//! The zip container itself is read through the `zip` crate behind trusted
//! wrappers, and what it holds is named by uninterpreted functions of the
//! archive bytes — reading an in-memory zip is a function of the bytes
//! alone. `zip_read` names the full read (every entry's name, flag and
//! content, or `None` when opening or any read fails), so a well-formed,
//! wholly safe archive is owed a successful plan; `zip_opens` and
//! `zip_refused` name how opening alone fares, the facts the
//! content-sniffing dispatcher decides by.
use vstd::prelude::*;

use crate::Config;
use crate::errors::ExtractError;
use crate::plan::{actions_of, all_safe, first_unsafe, plan_entries, Report};
use crate::progress::ProgressTracker;

verus! {

/// Whether these bytes open as a zip archive: the central-directory parse
/// succeeds. Deterministic in the bytes.
pub uninterp spec fn zip_opens(data: Seq<u8>) -> bool;

/// When bytes do not open as a zip archive: whether the failure says the
/// content is not a zip container (as opposed to any other failure). The
/// content-sniffing dispatcher falls back to gzip+tar exactly in that case.
pub uninterp spec fn zip_refused(data: Seq<u8>) -> bool;

/// The entries a full read of the zip archive yields — recorded name
/// bytes, directory flag, decompressed content, in physical order — or
/// `None` when opening or reading any entry fails. Deterministic in the
/// bytes.
pub uninterp spec fn zip_read(data: Seq<u8>) -> Option<Seq<(Seq<u8>, bool, Seq<u8>)>>;

/// Why opening bytes as a zip archive failed.
pub enum ZipOpenFailure {
    /// The content is not a valid zip container.
    NotZip,
    /// Any other failure.
    Other,
}

/// Relies on zip::ZipArchive::new: it reads the central directory of the
/// given bytes, deterministically, and an `InvalidArchive` error means the
/// content is not a zip container.
#[verifier::external_body]
pub(crate) fn zip_probe(data: &Vec<u8>) -> (r: Result<(), ZipOpenFailure>)
    ensures
        r is Ok <==> zip_opens(data@),
        r matches Err(f) ==> ((f is NotZip) == zip_refused(data@)),
{
    match zip::ZipArchive::new(std::io::Cursor::new(data.clone())) {
        Ok(_) => Ok(()),
        Err(zip::result::ZipError::InvalidArchive(_)) => Err(ZipOpenFailure::NotZip),
        Err(_) => Err(ZipOpenFailure::Other),
    }
}

/// The full read. Relies on zip::ZipArchive::{new, len, by_index} and
/// zip::read::ZipFile::{name_raw, is_dir}, with std::io::Read::read_to_end
/// decompressing each entry's content: hands every entry out as plain
/// values, in physical order.
#[verifier::external_body]
fn zip_list(data: &Vec<u8>) -> (r: Result<Vec<(Vec<u8>, bool, Vec<u8>)>, ()>)
    ensures
        r is Ok <==> zip_read(data@) is Some,
        r matches Ok(v) ==> v.deep_view() == zip_read(data@)->0,
{
    let mut a = match zip::ZipArchive::new(std::io::Cursor::new(data.clone())) {
        Ok(a) => a,
        Err(_) => return Err(()),
    };
    (0..a.len()).map(|i| {
        let mut f = a.by_index(i).map_err(|_| ())?;
        let mut buf: Vec<u8> = Vec::new();
        std::io::Read::read_to_end(&mut f, &mut buf).map_err(|_| ())?;
        Ok((f.name_raw().to_vec(), f.is_dir(), buf))
    }).collect()
}

/// Everything zip extraction promises of its outcome, over the entry list
/// `zip_read` names for the archive bytes. A well-formed archive whose
/// entries are all safe is owed a success, which plans exactly the writes
/// of those entries and ends with `completed == total ==` the entry count;
/// an unsafe entry aborts with `PathTraversal` carrying the first rejected
/// path; bytes that do not open as a zip archive fail with `OpenFailure`,
/// and an archive that opens but cannot be fully read fails with
/// `IoFailure` — each of these exactly in its own case.
pub open spec fn zip_extraction_post(
    data: Seq<u8>,
    root: Seq<u8>,
    upd: Seq<u8>,
    r: Result<Report, ExtractError>,
) -> bool {
    &&& (r matches Ok(rep) ==> {
        &&& zip_read(data) matches Some(es)
        &&& all_safe(es, root, upd)
        &&& rep.actions.deep_view() == actions_of(es, root, upd)
        &&& rep.progress.completed == es.len()
        &&& rep.progress.total matches Some(t) && t == es.len()
    })
    &&& (zip_read(data) matches Some(es) && all_safe(es, root, upd) ==> r is Ok)
    &&& (r matches Err(e) ==> match e {
        ExtractError::OpenFailure => !zip_opens(data) && zip_read(data) is None,
        ExtractError::PathTraversal { path } => zip_read(data) matches Some(es) && exists|i: int|
            #[trigger] first_unsafe(es, root, upd, i) && path@ == es[i].0,
        ExtractError::IoFailure => zip_opens(data) && zip_read(data) is None,
        _ => false,
    })
    &&& (zip_read(data) is None ==> (r matches Err(e) && (if zip_opens(data) {
        e is IoFailure
    } else {
        e is OpenFailure
    })))
}

/// Extracts from bytes already known to open as a zip archive: reads every
/// entry in physical order, plans the writes through PathGuard, and
/// advances the progress tracker once per entry. A full read that fails is
/// `IoFailure`; classifying bytes that never opened is the caller's.
fn extract_read(data: &Vec<u8>, root: &Vec<u8>, cfg: &Config) -> (r: Result<Report, ExtractError>)
    ensures
        r matches Ok(rep) ==> {
            &&& zip_read(data@) matches Some(es)
            &&& all_safe(es, root@, cfg.upd_name@)
            &&& rep.actions.deep_view() == actions_of(es, root@, cfg.upd_name@)
            &&& rep.progress.completed == es.len()
            &&& rep.progress.total matches Some(t) && t == es.len()
        },
        zip_read(data@) matches Some(es) && all_safe(es, root@, cfg.upd_name@) ==> r is Ok,
        r matches Err(e) ==> match e {
            ExtractError::PathTraversal { path } => zip_read(data@) matches Some(es) && exists|
                i: int,
            |
                #[trigger] first_unsafe(es, root@, cfg.upd_name@, i) && path@ == es[i].0,
            ExtractError::IoFailure => zip_read(data@) is None,
            _ => false,
        },
{
    let entries = match zip_list(data) {
        Ok(v) => v,
        Err(_) => {
            return Err(ExtractError::IoFailure);
        },
    };
    let acts = match plan_entries(&entries, root, &cfg.upd_name) {
        Ok(acts) => acts,
        Err(e) => {
            return Err(e);
        },
    };
    let total = entries.len();
    let mut tracker = ProgressTracker::new(Some(total));
    let mut j: usize = 0;
    while j < total
        invariant
            j <= total,
            tracker.completed == j,
            tracker.total == Some(total),
        decreases total - j,
    {
        tracker.advance();
        j += 1;
    }
    Ok(Report { actions: acts, progress: tracker })
}

/// Runs `extract_read` for the content-sniffing dispatcher, which has
/// already probed the bytes and knows they open as a zip archive.
pub(crate) fn extract_probed(data: &Vec<u8>, root: &Vec<u8>, cfg: &Config) -> (r: Result<
    Report,
    ExtractError,
>)
    requires
        zip_opens(data@),
    ensures
        zip_extraction_post(data@, root@, cfg.upd_name@, r),
{
    extract_read(data, root, cfg)
}

/// Extracts a zip archive held in memory beneath the extraction root:
/// every entry is validated and planned in physical order, and the
/// progress total is the archive's entry count. A well-formed archive
/// whose entries are all safe succeeds; bytes that do not open as a zip
/// archive fail with `OpenFailure`; the first unsafe entry path aborts
/// with `PathTraversal` and nothing is planned.
pub fn extract_zip(data: &Vec<u8>, root: &Vec<u8>, cfg: &Config) -> (r: Result<
    Report,
    ExtractError,
>)
    ensures
        zip_extraction_post(data@, root@, cfg.upd_name@, r),
{
    match extract_read(data, root, cfg) {
        Ok(rep) => Ok(rep),
        Err(e) => match e {
            ExtractError::IoFailure => match zip_probe(data) {
                Ok(()) => Err(ExtractError::IoFailure),
                Err(_) => Err(ExtractError::OpenFailure),
            },
            other => Err(other),
        },
    }
}

} // verus!
