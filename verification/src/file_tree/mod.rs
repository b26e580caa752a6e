//! The file tree of the left pane: nodes loaded lazily by directory.
use vstd::prelude::*;

use crate::git::GitFileStatus;

pub mod classify;
pub mod state;
pub mod symlink;

pub use classify::{file_type_category, FileTypeCategory};
pub use state::{ChildList, ExpandAction, FileTreeState, VisibleTreeRow};
pub use symlink::{detect_symlink_loop, MAX_EXPAND_DEPTH};

verus! {

/// One entry read from a directory.
#[derive(Debug, Clone, PartialEq, Eq)]
pub struct DirectoryEntry {
    pub path: String,
    pub name: String,
    pub is_dir: bool,
}

/// A file or directory known to the tree.
#[derive(Debug, Clone, PartialEq, Eq)]
pub struct FileNode {
    pub path: String,
    pub name: String,
    pub is_dir: bool,
    pub expanded: bool,
    pub children_loaded: bool,
    pub load_error: Option<String>,
    pub git_status: Option<GitFileStatus>,
}

} // verus!
