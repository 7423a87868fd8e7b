//! Disk space: where the caches live, what they hold, and how a removal
//! went. Directory walks are handed in as listings of plain entries.

pub mod locations;
pub mod operations;
pub mod resources;

use vstd::prelude::*;

verus! {

/// What kind of thing a walk found at a path.
#[derive(Debug, Clone, Copy, PartialEq, Eq, Structural)]
pub enum EntryKind {
    File,
    Directory,
    Other,
}

/// One entry of a directory walk. `size` is the length that the entry's
/// metadata reports, and `None` where the metadata could not be read.
#[derive(Debug)]
pub struct DiskEntry {
    pub path: String,
    pub kind: EntryKind,
    pub size: Option<u64>,
}

/// A Gradle project with the walk of everything below its root.
#[derive(Debug)]
pub struct ProjectListing {
    pub root: String,
    pub entries: Vec<DiskEntry>,
}

/// Why a scan gave no result.
#[derive(Debug, Clone, Copy, PartialEq, Eq, Structural)]
pub enum ScanError {
    /// The entry at this position of the listing has no metadata.
    MetadataUnavailable { entry: usize },
}

} // verus!
