//! Semantic colour roles that views ask the theme for.
use vstd::prelude::*;

verus! {

/// A role a piece of the interface plays, which the theme maps to a colour.
#[derive(Debug, Clone, Copy, PartialEq, Eq, Hash, Structural)]
pub enum SemanticRole {
    FileDir,
    FileSource,
    FileScript,
    FileMarkup,
    FileConfig,
    FileData,
    FileMedia,
    FileOther,
    GitModified,
    GitAdded,
    GitDeleted,
    GitUntracked,
}

} // verus!
