//! The error kinds an extraction run can fail with.
//!
//! Every error is fatal to the current run: there is no per-entry recovery
//! or skip-and-continue, and the first anomaly aborts the whole extraction.
use vstd::prelude::*;

verus! {

/// Why an extraction run failed.
#[derive(Debug)]
pub enum ExtractError {
    /// No archive path was given.
    EmptyPath,
    /// The archive could not be opened or read as its container format.
    OpenFailure,
    /// The archive's extension or content was not recognized.
    UnsupportedFormat,
    /// An entry's recorded path would escape the extraction root; the
    /// offending path is carried for the caller's report.
    PathTraversal { path: Vec<u8> },
    /// Reading an entry's content out of the archive failed.
    IoFailure,
}

/// What `ExtractError::message` returns for each kind.
pub open spec fn message_spec(e: ExtractError) -> Seq<char> {
    match e {
        ExtractError::EmptyPath => "no archive path was given"@,
        ExtractError::OpenFailure => "the archive could not be opened"@,
        ExtractError::UnsupportedFormat => "the archive format is not supported"@,
        ExtractError::PathTraversal { .. } => "an entry path is unsafe and could escape the target directory"@,
        ExtractError::IoFailure => "reading an entry out of the archive failed"@,
    }
}

impl ExtractError {
    /// A single human-readable description of the failure; for a
    /// `PathTraversal` the offending path sits in the variant's field.
    pub fn message(&self) -> (m: &'static str)
        ensures
            m@ == message_spec(*self),
    {
        match self {
            ExtractError::EmptyPath => "no archive path was given",
            ExtractError::OpenFailure => "the archive could not be opened",
            ExtractError::UnsupportedFormat => "the archive format is not supported",
            ExtractError::PathTraversal { .. } => "an entry path is unsafe and could escape the target directory",
            ExtractError::IoFailure => "reading an entry out of the archive failed",
        }
    }
}

} // verus!
