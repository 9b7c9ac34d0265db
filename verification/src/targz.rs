//! TarGzExtractor: extracts a gzip-compressed tar archive held in memory.
//!
//! A tar stream is sequential, so the entry count is not known up front:
//! when the source can be rewound, a counting pre-pass enumerates the
//! entries first and the real pass re-opens the decompression pipeline from
//! the start; when it cannot, the progress total is left unknown and
//! extraction still completes every entry.
//!
//! The gzip+tar pipeline is read through the `flate2` and `tar` crates
//! behind trusted wrappers; `targz_parse` names what enumerating the
//! in-memory bytes yields, a function of the bytes alone.
use vstd::prelude::*;

use crate::Config;
use crate::errors::ExtractError;
use crate::plan::{actions_of, all_safe, first_unsafe, plan_entries, Report};
use crate::progress::ProgressTracker;

verus! {

/// The entries the gzip+tar pipeline yields for these bytes — recorded
/// path bytes, directory flag, content bytes, in stream order — or `None`
/// when decompressing or parsing the in-memory bytes fails. Enumerating an
/// in-memory stream is a function of its bytes alone.
pub uninterp spec fn targz_parse(data: Seq<u8>) -> Option<Seq<(Seq<u8>, bool, Seq<u8>)>>;

/// The counting pre-pass. Relies on flate2::read::GzDecoder::new and
/// tar::Archive::entries: counting the items the entry iterator yields for
/// a stream that enumerates cleanly gives exactly the entry count.
#[verifier::external_body]
fn targz_count(data: &Vec<u8>) -> (r: Result<usize, ()>)
    ensures
        r is Ok <== targz_parse(data@) is Some,
        r matches Ok(n) ==> (targz_parse(data@) matches Some(es) ==> n == es.len()),
{
    let decoder = flate2::read::GzDecoder::new(data.as_slice());
    let mut archive = tar::Archive::new(decoder);
    match archive.entries() {
        Ok(it) => Ok(it.count()),
        Err(_) => Err(()),
    }
}

/// The extraction pass. Relies on flate2::read::GzDecoder::new,
/// tar::Archive::entries and tar::Entry::{path_bytes, header}, with
/// std::io::Read::read_to_end reading each entry's content: enumerates the
/// sequential entry iterator (whose items borrow the archive, so one call
/// hands the whole stream out) and converts every entry to plain values.
#[verifier::external_body]
fn targz_list(data: &Vec<u8>) -> (r: Result<Vec<(Vec<u8>, bool, Vec<u8>)>, ()>)
    ensures
        r is Ok <==> targz_parse(data@) is Some,
        r matches Ok(v) ==> v.deep_view() == targz_parse(data@)->0,
{
    let mut a = tar::Archive::new(flate2::read::GzDecoder::new(data.as_slice()));
    let it = match a.entries() {
        Ok(it) => it,
        Err(_) => return Err(()),
    };
    let r: std::io::Result<Vec<(Vec<u8>, bool, Vec<u8>)>> = it.map(|next| {
        let mut e = next?;
        let mut buf: Vec<u8> = Vec::new();
        std::io::Read::read_to_end(&mut e, &mut buf)?;
        Ok((e.path_bytes().to_vec(), e.header().entry_type().is_dir(), buf))
    }).collect();
    r.map_err(|_| ())
}

/// Everything gzip+tar extraction promises of its outcome, over the entry
/// list `targz_parse` names for the stream bytes: a success plans exactly
/// the writes of a wholly safe archive and ends with `completed ==` the
/// entry count, the total known exactly when the source was rewindable;
/// bytes that do not enumerate fail with `OpenFailure` and nothing else
/// does; an unsafe entry aborts with `PathTraversal` carrying the first
/// rejected path.
pub open spec fn targz_extraction_post(
    data: Seq<u8>,
    root: Seq<u8>,
    upd: Seq<u8>,
    rewindable: bool,
    r: Result<Report, ExtractError>,
) -> bool {
    &&& (r matches Ok(rep) ==> {
        &&& targz_parse(data) matches Some(es)
        &&& all_safe(es, root, upd)
        &&& rep.actions.deep_view() == actions_of(es, root, upd)
        &&& rep.progress.completed == es.len()
        &&& if rewindable {
            rep.progress.total matches Some(t) && t == es.len()
        } else {
            rep.progress.total is None
        }
    })
    &&& (r matches Err(e) ==> match e {
        ExtractError::OpenFailure => targz_parse(data) is None,
        ExtractError::PathTraversal { path } => targz_parse(data) matches Some(es) && exists|i: int|
            #[trigger] first_unsafe(es, root, upd, i) && path@ == es[i].0,
        _ => false,
    })
    &&& (targz_parse(data) is None <==> r matches Err(ExtractError::OpenFailure))
}

/// Extracts a gzip-compressed tar archive held in memory beneath the
/// extraction root. With a rewindable source the counting pre-pass fixes
/// the progress total at the entry count; otherwise the total stays
/// unknown. Bytes that do not enumerate as gzip+tar fail with
/// `OpenFailure`; the first unsafe entry path aborts with `PathTraversal`
/// and nothing is planned.
pub fn extract_targz(data: &Vec<u8>, root: &Vec<u8>, cfg: &Config, rewindable: bool) -> (r: Result<
    Report,
    ExtractError,
>)
    ensures
        targz_extraction_post(data@, root@, cfg.upd_name@, rewindable, r),
{
    let total: Option<usize> = if rewindable {
        match targz_count(data) {
            Ok(n) => Some(n),
            Err(_) => {
                return Err(ExtractError::OpenFailure);
            },
        }
    } else {
        None
    };
    let entries = match targz_list(data) {
        Ok(v) => v,
        Err(_) => {
            return Err(ExtractError::OpenFailure);
        },
    };
    let acts = match plan_entries(&entries, root, &cfg.upd_name) {
        Ok(a) => a,
        Err(e) => {
            return Err(e);
        },
    };
    let n = entries.len();
    let mut tracker = ProgressTracker::new(total);
    let mut j: usize = 0;
    while j < n
        invariant
            j <= n,
            tracker.completed == j,
            tracker.total == total,
            total matches Some(t) ==> t == n,
            n <= usize::MAX,
        decreases n - j,
    {
        tracker.advance();
        j += 1;
    }
    Ok(Report { actions: acts, progress: tracker })
}

} // verus!
