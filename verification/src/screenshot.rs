//! Screenshot records.
//!
//! Capturing and listing screenshots is host-layer file work; this module
//! holds the record describing one stored screenshot.

use vstd::prelude::*;

verus! {

/// One stored screenshot.
#[derive(Debug, Clone, PartialEq)]
pub struct ScreenshotInfo {
    /// File name within the screenshots directory.
    pub filename: String,
    /// Full path of the file.
    pub path: String,
    /// File size in bytes.
    pub size: u64,
    /// Creation time as a Unix timestamp in seconds.
    pub created_at: u64,
}

} // verus!
