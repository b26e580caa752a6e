//! Which editor command to run, and how it takes a line number.
use vstd::prelude::*;

use crate::config::EditorSettings;
use crate::text::{push_str, str_chars, str_eq, string_from_chars, trim, trim_chars};

use super::classify::{editor_basename, spec_editor_basename};

verus! {

/// Told to the user when no editor could be found.
pub const RESOLUTION_HINT: &'static str = "Set [editor] command in config, or export $VISUAL / $EDITOR (fallback: nano).";

/// Where the editor command came from.
#[derive(Debug, Clone, Copy, PartialEq, Eq, Structural)]
pub enum EditorSource {
    Config,
    Visual,
    Editor,
    Fallback,
}

#[derive(Debug, Clone, PartialEq, Eq)]
pub struct ResolvedEditorCommand {
    pub command: String,
    pub source: EditorSource,
}

/// The configured command; else `$VISUAL`, then `$EDITOR`, each trimmed
/// and only when not blank; else `nano`.
pub open spec fn spec_resolve_editor(
    configured: Option<Seq<char>>,
    visual: Option<Seq<char>>,
    editor: Option<Seq<char>>,
) -> (Seq<char>, EditorSource) {
    match configured {
        Some(c) => (c, EditorSource::Config),
        None => if visual is Some && trim(visual->0).len() > 0 {
            (trim(visual->0), EditorSource::Visual)
        } else if editor is Some && trim(editor->0).len() > 0 {
            (trim(editor->0), EditorSource::Editor)
        } else {
            ("nano"@, EditorSource::Fallback)
        },
    }
}

/// `Some` of the view of a string, or `None`.
pub open spec fn opt_str(o: Option<String>) -> Option<Seq<char>> {
    match o {
        Some(s) => Some(s@),
        None => None,
    }
}

pub fn resolve_editor_command_with_env(
    settings: &EditorSettings,
    visual: Option<String>,
    editor: Option<String>,
) -> (r: ResolvedEditorCommand)
    ensures
        (r.command@, r.source) == spec_resolve_editor(opt_str(settings.configured_command), opt_str(visual), opt_str(editor)),
{
    if let Some(command) = &settings.configured_command {
        return ResolvedEditorCommand { command: string_from_chars(str_chars(command.as_str()).as_slice()), source: EditorSource::Config };
    }
    if let Some(v) = &visual {
        let t = trim_chars(str_chars(v.as_str()).as_slice());
        if t.len() > 0 {
            return ResolvedEditorCommand { command: string_from_chars(t.as_slice()), source: EditorSource::Visual };
        }
    }
    if let Some(e) = &editor {
        let t = trim_chars(str_chars(e.as_str()).as_slice());
        if t.len() > 0 {
            return ResolvedEditorCommand { command: string_from_chars(t.as_slice()), source: EditorSource::Editor };
        }
    }
    let mut nano = String::new();
    push_str(&mut nano, "nano");
    ResolvedEditorCommand { command: nano, source: EditorSource::Fallback }
}

/// Editors that take the line to open at as `+N`.
pub open spec fn spec_uses_vim_line_arg(command: Seq<char>) -> bool {
    let b = spec_editor_basename(command);
    b == "vim"@ || b == "nvim"@ || b == "vi"@ || b == "gvim"@ || b == "nvim-qt"@ || b == "nano"@ || b == "micro"@
}

pub fn uses_vim_line_arg(command: &str) -> (r: bool)
    ensures
        r == spec_uses_vim_line_arg(command@),
{
    let base = editor_basename(command);
    let b = base.as_str();
    str_eq(b, "vim") || str_eq(b, "nvim") || str_eq(b, "vi") || str_eq(b, "gvim") || str_eq(b, "nvim-qt") || str_eq(b, "nano") || str_eq(b, "micro")
}

} // verus!
