//! ArchiveDispatcher: chooses and runs the right extractor for an archive.
//!
//! Two strategies are offered. `depress` inspects the archive path's
//! extension, case-insensitively: `.zip` goes to the zip extractor, `.gz`
//! to the gzip+tar extractor, anything else or a missing extension fails
//! with `UnsupportedFormat`. `decompress` sniffs the content: it tries the
//! bytes as a zip archive first and falls back to gzip+tar exactly when
//! opening failed because the content is not a zip container; any other
//! zip-open failure is fatal. Both reject an empty archive path with
//! `EmptyPath` before anything else.
use vstd::prelude::*;

use crate::Config;
use crate::errors::ExtractError;
use crate::path_guard::{bytes_eq, pieces, split_pieces};
use crate::plan::Report;
use crate::targz::{extract_targz, targz_extraction_post};
use crate::zip_ext::{
    extract_probed, extract_zip, zip_extraction_post, zip_opens, zip_probe, zip_refused,
    ZipOpenFailure,
};

verus! {

/// The archive container formats the system extracts.
#[derive(Clone, Copy, PartialEq, Eq, Structural, Debug)]
pub enum ArchiveFormat {
    Zip,
    TarGz,
}

/// The index of the last `.` byte of `c`, or `-1` when it has none.
pub open spec fn rfind_dot(c: Seq<u8>) -> int
    decreases c.len(),
{
    if c.len() == 0 {
        -1
    } else if c.last() == 46u8 {
        c.len() - 1
    } else {
        rfind_dot(c.drop_last())
    }
}

/// The extension of the path's final piece: the bytes after its last `.`,
/// provided that dot is not the piece's first byte (a wholly dotted name
/// such as `.zip` has no extension).
pub open spec fn ext_of(p: Seq<u8>) -> Option<Seq<u8>> {
    if pieces(p).len() == 0 {
        None
    } else {
        let c = pieces(p).last();
        let j = rfind_dot(c);
        if j <= 0 {
            None
        } else {
            Some(c.skip(j + 1))
        }
    }
}

/// ASCII lowercasing of one byte.
pub open spec fn lower_byte(b: u8) -> u8 {
    if 65 <= b <= 90 {
        (b + 32) as u8
    } else {
        b
    }
}

/// ASCII lowercasing of a byte string.
pub open spec fn lower_seq(s: Seq<u8>) -> Seq<u8> {
    s.map_values(|b: u8| lower_byte(b))
}

/// The path's extension, ASCII-lowercased.
pub open spec fn ext_lower(p: Seq<u8>) -> Option<Seq<u8>> {
    match ext_of(p) {
        Some(e) => Some(lower_seq(e)),
        None => None,
    }
}

/// The extension that routes to the zip extractor: `zip`.
pub open spec fn ext_zip() -> Seq<u8> {
    seq![122u8, 105u8, 112u8]
}

/// The extension that routes to the gzip+tar extractor: `gz`.
pub open spec fn ext_gz() -> Seq<u8> {
    seq![103u8, 122u8]
}

/// The extension of the path's final piece, as `ext_of` decides it.
fn find_ext(path: &Vec<u8>) -> (r: Option<Vec<u8>>)
    ensures
        match r {
            Some(e) => ext_of(path@) matches Some(x) && e@ == x,
            None => ext_of(path@) is None,
        },
{
    let cs = split_pieces(path);
    if cs.len() == 0 {
        return None;
    }
    let c = &cs[cs.len() - 1];
    proof {
        assert(cs.deep_view()[cs.len() - 1] =~= c@);
        assert(c@ == pieces(path@).last());
    }
    let mut j: usize = c.len();
    proof {
        assert(c@.take(c.len() as int) =~= c@);
    }
    while j > 0
        invariant
            j <= c.len(),
            rfind_dot(c@) == rfind_dot(c@.take(j as int)),
            c@ == pieces(path@).last(),
            ext_of(path@) == (if rfind_dot(c@) <= 0 {
                Option::<Seq<u8>>::None
            } else {
                Some(c@.skip(rfind_dot(c@) + 1))
            }),
        decreases j,
    {
        proof {
            assert(c@.take(j as int).last() == c@[j - 1]);
            assert(c@.take(j as int).drop_last() =~= c@.take(j - 1));
        }
        if c[j - 1] == 46 {
            assert(rfind_dot(c@) == j - 1);
            if j - 1 == 0 {
                return None;
            }
            let mut e: Vec<u8> = Vec::new();
            let mut k: usize = j;
            while k < c.len()
                invariant
                    j <= k <= c.len(),
                    e@ == c@.subrange(j as int, k as int),
                decreases c.len() - k,
            {
                e.push(c[k]);
                assert(e@ =~= c@.subrange(j as int, k + 1));
                k += 1;
            }
            assert(e@ =~= c@.skip(j as int));
            return Some(e);
        }
        j -= 1;
    }
    assert(c@.take(0) =~= Seq::<u8>::empty());
    None
}

/// ASCII-lowercases a byte string.
fn to_lower(v: &Vec<u8>) -> (r: Vec<u8>)
    ensures
        r@ == lower_seq(v@),
{
    let mut r: Vec<u8> = Vec::new();
    let mut i: usize = 0;
    while i < v.len()
        invariant
            i <= v.len(),
            r@.len() == i,
            forall|k: int| 0 <= k < i ==> r@[k] == lower_byte(v@[k]),
        decreases v.len() - i,
    {
        let b = v[i];
        if 65 <= b && b <= 90 {
            r.push(b + 32);
        } else {
            r.push(b);
        }
        i += 1;
    }
    assert(r@ =~= lower_seq(v@));
    r
}

/// The extension-based dispatcher's routing decision: an empty path is
/// rejected with `EmptyPath` before anything else; a lowercased `zip`
/// extension routes to the zip extractor and `gz` to the gzip+tar
/// extractor; any other or missing extension is `UnsupportedFormat`.
pub fn dispatch_extension(path: &Vec<u8>) -> (r: Result<ArchiveFormat, ExtractError>)
    ensures
        (r matches Err(e) && e is EmptyPath) <==> path@.len() == 0,
        r matches Ok(f) && f is Zip <==> path@.len() > 0 && ext_lower(path@) == Some(ext_zip()),
        r matches Ok(f) && f is TarGz <==> path@.len() > 0 && ext_lower(path@) == Some(ext_gz()),
        (r matches Err(e) && e is UnsupportedFormat) <==> path@.len() > 0 && ext_lower(path@)
            != Some(ext_zip()) && ext_lower(path@) != Some(ext_gz()),
{
    if path.len() == 0 {
        return Err(ExtractError::EmptyPath);
    }
    match find_ext(path) {
        None => Err(ExtractError::UnsupportedFormat),
        Some(e) => {
            let le = to_lower(&e);
            let mut zv: Vec<u8> = Vec::new();
            zv.push(122);
            zv.push(105);
            zv.push(112);
            assert(zv@ =~= ext_zip());
            if bytes_eq(&le, &zv) {
                return Ok(ArchiveFormat::Zip);
            }
            let mut gv: Vec<u8> = Vec::new();
            gv.push(103);
            gv.push(122);
            assert(gv@ =~= ext_gz());
            if bytes_eq(&le, &gv) {
                return Ok(ArchiveFormat::TarGz);
            }
            Err(ExtractError::UnsupportedFormat)
        },
    }
}

/// The extension-based dispatcher: routes by the archive path's extension
/// and runs the matching extractor on the archive bytes. `rewindable` says
/// whether the gzip+tar source could be re-read for the counting pre-pass.
pub fn depress(
    path: &Vec<u8>,
    data: &Vec<u8>,
    target: &Vec<u8>,
    cfg: &Config,
    rewindable: bool,
) -> (r: Result<Report, ExtractError>)
    ensures
        (r matches Err(e) && e is EmptyPath) <==> path@.len() == 0,
        path@.len() > 0 && ext_lower(path@) == Some(ext_zip()) ==> zip_extraction_post(
            data@,
            target@,
            cfg.upd_name@,
            r,
        ),
        path@.len() > 0 && ext_lower(path@) == Some(ext_gz()) ==> targz_extraction_post(
            data@,
            target@,
            cfg.upd_name@,
            rewindable,
            r,
        ),
        (r matches Err(e) && e is UnsupportedFormat) <==> path@.len() > 0 && ext_lower(path@)
            != Some(ext_zip()) && ext_lower(path@) != Some(ext_gz()),
{
    match dispatch_extension(path) {
        Ok(ArchiveFormat::Zip) => extract_zip(data, target, cfg),
        Ok(ArchiveFormat::TarGz) => extract_targz(data, target, cfg, rewindable),
        Err(e) => Err(e),
    }
}

/// The content-sniffing dispatcher: tries the bytes as a zip archive
/// first, and falls back to gzip+tar exactly when opening failed because
/// the content is not a zip container; any other zip-open failure is
/// fatal. An empty archive path is rejected with `EmptyPath` before
/// anything else.
pub fn decompress(
    path: &Vec<u8>,
    data: &Vec<u8>,
    target: &Vec<u8>,
    cfg: &Config,
    rewindable: bool,
) -> (r: Result<Report, ExtractError>)
    ensures
        (r matches Err(e) && e is EmptyPath) <==> path@.len() == 0,
        path@.len() > 0 ==> (if zip_opens(data@) {
            zip_extraction_post(data@, target@, cfg.upd_name@, r)
        } else if zip_refused(data@) {
            targz_extraction_post(data@, target@, cfg.upd_name@, rewindable, r)
        } else {
            r matches Err(e) && e is OpenFailure
        }),
{
    if path.len() == 0 {
        return Err(ExtractError::EmptyPath);
    }
    match zip_probe(data) {
        Ok(()) => extract_probed(data, target, cfg),
        Err(ZipOpenFailure::NotZip) => extract_targz(data, target, cfg, rewindable),
        Err(ZipOpenFailure::Other) => Err(ExtractError::OpenFailure),
    }
}

} // verus!
