//! Working-tree status, its incremental updates, and branch details.
pub mod branches;
pub mod patch;
pub mod status;

pub use branches::{BranchDetail, BranchEntry};
pub use patch::{diff_git_file_entries, patch_git_file_entries, GitFileStatusPatch};
pub use status::{GitFileEntry, GitFileStatus};
