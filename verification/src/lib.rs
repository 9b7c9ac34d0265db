//! Safe extraction engine for a self-updating installer.
//!
//! Given the bytes of a downloaded archive (a zip file or a gzip-compressed
//! tar file) and a target directory, the library plans how to unpack the
//! archive's contents, defending against path-traversal ("zip slip") attacks
//! and redirecting the updater's own package into a quarantine subdirectory
//! so that an in-place self-update cannot clobber the running process.
//!
//! Paths are handled as byte strings throughout: entry names come out of an
//! archive as raw bytes, and the planned destinations are byte strings that
//! the caller turns into filesystem paths when it materializes the plan.
use vstd::prelude::*;

pub mod errors;
pub mod path_guard;
pub mod plan;
pub mod progress;
pub mod zip_ext;
pub mod targz;
pub mod dispatch;

verus! {

/// Process-wide options, handed explicitly to the extraction components:
/// the reserved name that identifies the updater's own distributable, and
/// the verbosity flag that the caller's progress renderer honours.
pub struct Config {
    /// The reserved self-identifier: an entry whose final path component
    /// equals this name is redirected under the quarantine subdirectory.
    pub upd_name: Vec<u8>,
    /// When set, the caller prints one line per entry instead of the
    /// compact progress indicator.
    pub verbose: bool,
}

/// The command-line arguments the surrounding program collects and hands in.
pub struct CliArgs {
    /// Path to the update archive on disk.
    pub upgrade: String,
    /// Process id of the caller that requested the update.
    pub pid: u32,
    /// When set, the main process is not started after extraction.
    pub debug: bool,
}

} // verus!
