//! Finds large files: walks a directory tree, keeps the regular files that pass a set of
//! filters (minimum size, extension, name glob, hidden files), and lays them out as a sorted,
//! optionally limited listing.
//!
//! The library holds the decisions of the walk and their proofs. Reading directories and
//! querying metadata is left to the caller, which hands the results in as plain values.

pub mod error;
pub mod inspect;
pub mod listing;
pub mod order;
pub mod path;
pub mod pattern;
pub mod record;
pub mod walk;

pub use error::{quote_path, render_report, LffError};
pub use inspect::{format_size, handle_entry};
pub use listing::{format_line, format_lines, present, size_column_width, NO_FILES_FOUND_STR};
pub use order::{bytes_before, file_before, finish, sort_files};
pub use path::{extension, file_name, path_is_hidden};
pub use pattern::NamePattern;
pub use record::{LffConfig, LffFile, SortMethod};
pub use walk::{bytes_equal, merge_fragments, open_failure, EntryKind, EntryStep, Finder};
