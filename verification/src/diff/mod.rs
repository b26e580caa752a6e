//! File diffs shown in the diff tab.
use vstd::prelude::*;

verus! {

/// Which side of the index a diff compares.
#[derive(Debug, Clone, Copy, PartialEq, Eq, Structural)]
pub enum DiffSource {
    Unstaged,
    Staged,
}

impl Default for DiffSource {
    fn default() -> (r: Self)
        ensures
            r == DiffSource::Unstaged,
    {
        DiffSource::Unstaged
    }
}

pub open spec fn spec_toggle(s: DiffSource) -> DiffSource {
    match s {
        DiffSource::Unstaged => DiffSource::Staged,
        DiffSource::Staged => DiffSource::Unstaged,
    }
}

impl DiffSource {
    /// The other side.
    pub fn toggle(self) -> (r: Self)
        ensures
            r == spec_toggle(self),
    {
        match self {
            DiffSource::Unstaged => DiffSource::Staged,
            DiffSource::Staged => DiffSource::Unstaged,
        }
    }
}

/// Toggling twice comes back, and toggling always changes the side.
pub proof fn law_toggle_involution(s: DiffSource)
    ensures
        spec_toggle(spec_toggle(s)) == s,
        spec_toggle(s) != s,
{
}

#[derive(Debug, Clone, Copy, PartialEq, Eq, Structural)]
pub enum DiffLineKind {
    Header,
    Context,
    Addition,
    Deletion,
}

#[derive(Debug, Clone, PartialEq, Eq)]
pub struct DiffLine {
    pub kind: DiffLineKind,
    pub content: String,
    pub old_lineno: Option<u32>,
    pub new_lineno: Option<u32>,
}

#[derive(Debug, Clone, PartialEq, Eq)]
pub struct FileDiffLoadResult {
    pub path: String,
    pub lines: Vec<DiffLine>,
    pub is_binary: bool,
    pub error: Option<String>,
}

impl FileDiffLoadResult {
    /// A failed load of `path` with `message`.
    pub fn error(path: String, message: String) -> (r: Self)
        ensures
            r.path == path,
            r.lines@.len() == 0,
            !r.is_binary,
            r.error == Some(message),
    {
        FileDiffLoadResult { path, lines: Vec::new(), is_binary: false, error: Some(message) }
    }
}

} // verus!
