//! Status of a changed file in the working tree.
use vstd::prelude::*;

use crate::theme::SemanticRole;

verus! {

#[derive(Debug, Clone, Copy, PartialEq, Eq, Structural)]
pub enum GitFileStatus {
    Modified,
    Added,
    Deleted,
    Untracked,
}

pub open spec fn spec_badge(s: GitFileStatus) -> Seq<char> {
    match s {
        GitFileStatus::Modified => "M"@,
        GitFileStatus::Added => "A"@,
        GitFileStatus::Deleted => "D"@,
        GitFileStatus::Untracked => "U"@,
    }
}

pub open spec fn spec_status_role(s: GitFileStatus) -> SemanticRole {
    match s {
        GitFileStatus::Modified => SemanticRole::GitModified,
        GitFileStatus::Added => SemanticRole::GitAdded,
        GitFileStatus::Deleted => SemanticRole::GitDeleted,
        GitFileStatus::Untracked => SemanticRole::GitUntracked,
    }
}

impl GitFileStatus {
    /// One-letter marker shown beside the file.
    pub fn badge(self) -> (r: &'static str)
        ensures
            r@ == spec_badge(self),
    {
        match self {
            GitFileStatus::Modified => "M",
            GitFileStatus::Added => "A",
            GitFileStatus::Deleted => "D",
            GitFileStatus::Untracked => "U",
        }
    }

    pub fn semantic_role(self) -> (r: SemanticRole)
        ensures
            r == spec_status_role(self),
    {
        match self {
            GitFileStatus::Modified => SemanticRole::GitModified,
            GitFileStatus::Added => SemanticRole::GitAdded,
            GitFileStatus::Deleted => SemanticRole::GitDeleted,
            GitFileStatus::Untracked => SemanticRole::GitUntracked,
        }
    }
}

/// A changed file, by path relative to the repository root.
#[derive(Debug, Clone, PartialEq, Eq)]
pub struct GitFileEntry {
    pub path: String,
    pub status: GitFileStatus,
}

/// Each status has its own badge and its own role.
pub proof fn law_status_markers_distinct(a: GitFileStatus, b: GitFileStatus)
    ensures
        spec_badge(a) == spec_badge(b) ==> a == b,
        spec_status_role(a) == spec_status_role(b) ==> a == b,
{
    reveal_strlit("M");
    reveal_strlit("A");
    reveal_strlit("D");
    reveal_strlit("U");
    if spec_badge(a) == spec_badge(b) {
        assert(spec_badge(a)[0] == spec_badge(b)[0]);
    }
}

} // verus!
