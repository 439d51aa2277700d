//! The record kept for each file found, and the settings of one search.

use vstd::prelude::*;

verus! {

/// How a listing is ordered.
#[derive(Clone, Copy, Debug, PartialEq, Eq, Structural)]
pub enum SortMethod {
    /// Largest first.
    Size,
    /// By path, byte by byte.
    Name,
}

/// One file found by a search.
#[derive(Clone, Debug)]
pub struct LffFile {
    /// The path as it is listed, or its absolute form; not necessarily text.
    pub name: Vec<u8>,
    /// What follows the last `.` of the final segment, if anything does.
    pub extension: Option<Vec<u8>>,
    /// Size in bytes, of the entry itself rather than what a link points to.
    pub size: u64,
    /// The size as it is shown in a listing.
    pub formatted_size: String,
    /// Whether the final segment starts with `.`.
    pub hidden: bool,
}

/// The resolved settings of one search. None of them changes while it runs.
#[derive(Clone, Debug)]
pub struct LffConfig {
    /// Files smaller than this many bytes are left out.
    pub min_size: u64,
    /// Only files with exactly this extension are kept, when set.
    pub extension: Option<Vec<u8>>,
    /// Only files whose name matches this glob are kept, when set.
    pub name_pattern: Option<String>,
    /// Leave out hidden files, and do not enter hidden directories.
    pub exclude_hidden: bool,
    /// Show at most this many files.
    pub limit: Option<usize>,
    /// Name files by their absolute path.
    pub absolute: bool,
    /// Show sizes with units rather than as a byte count.
    pub pretty: bool,
    /// With units, use powers of 1000 rather than 1024.
    pub base_ten: bool,
    /// The order of the listing, if any.
    pub sort_method: Option<SortMethod>,
}

} // verus!
