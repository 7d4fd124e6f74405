//! File metadata records.
//!
//! Reading metadata from disk is host-layer work; this module holds the
//! record handed to the UI for one file.

use vstd::prelude::*;

verus! {

/// Metadata of one file or directory.
#[derive(Debug, Clone, PartialEq)]
pub struct FileInfo {
    /// File name without its directory.
    pub name: String,
    /// Full path as given by the caller.
    pub path: String,
    /// Size in bytes.
    pub size: u64,
    /// Lower-cased extension, when the name has one.
    pub extension: Option<String>,
    /// Whether the path names a regular file.
    pub is_file: bool,
    /// Whether the path names a directory.
    pub is_dir: bool,
    /// Creation time as a Unix timestamp in seconds, when known.
    pub created: Option<u64>,
    /// Modification time as a Unix timestamp in seconds, when known.
    pub modified: Option<u64>,
}

} // verus!
