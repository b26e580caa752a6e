//! The core of kiwi, a terminal workspace for coding agents: agent sessions
//! and their streaming chat protocols, the local tool catalogue and what the
//! tools report, configuration and its files, git and GitHub views, the file
//! tree, navigation and selection. Every function here carries a contract;
//! Verus proves the library's own functions, while the small wrappers around
//! `serde_json`, `toml` and std are trusted. The I/O around it lives in the
//! companion application crate.
pub mod agent;
pub mod ansi;
pub mod config;
pub mod diff;
pub mod editor;
pub mod env;
pub mod events;
pub mod file_tree;
pub mod git;
pub mod keyed;
pub mod github;
pub mod navigation;
pub mod path;
pub mod plugins;
pub mod preview;
pub mod selection;
pub mod text;
pub mod theme;

use vstd::prelude::*;

verus! {

/// Identifier of the library build, shown in diagnostics.
pub const CRATE_VERSION: &'static str = "0.1.0";

} // verus!
