//! Update availability records.
//!
//! Checking for, downloading and installing updates is host-layer work;
//! this module holds the record describing an available update.

use vstd::prelude::*;

verus! {

/// An available application update.
#[derive(Debug, Clone, PartialEq)]
pub struct UpdateInfo {
    /// Version offered by the update feed.
    pub version: String,
    /// Version currently running.
    pub current_version: String,
    /// Release notes, when the feed carries them.
    pub body: Option<String>,
    /// Release date, as the feed words it.
    pub date: Option<String>,
}

} // verus!
