//! Whether an editor runs beside the interface or takes over the terminal.
use vstd::prelude::*;

use crate::config::EditorSettings;
use crate::path::{file_name, spec_file_name};
use crate::text::{str_chars, str_eq, string_from_chars};

verus! {

#[derive(Debug, Clone, Copy, PartialEq, Eq, Structural)]
pub enum EditorLaunchMode {
    /// Detached spawn; the interface keeps the terminal.
    Gui,
    /// Suspend the interface, run the editor on the terminal, then resume.
    Terminal,
}

/// Last component of the command's path, or the command itself.
pub open spec fn spec_editor_basename(command: Seq<char>) -> Seq<char> {
    match spec_file_name(command) {
        Some(n) => n,
        None => command,
    }
}

pub fn editor_basename(command: &str) -> (r: String)
    ensures
        r@ == spec_editor_basename(command@),
{
    match file_name(command) {
        Some(n) => n,
        None => string_from_chars(str_chars(command).as_slice()),
    }
}

/// Editors known to open their own window.
pub open spec fn spec_is_known_gui_editor(command: Seq<char>) -> bool {
    let b = spec_editor_basename(command);
    b == "code"@ || b == "cursor"@ || b == "zed"@ || b == "subl"@ || b == "atom"@ || b == "windsurf"@ || b == "fleet"@ || b == "idea"@ || b == "pycharm"@
}

fn is_known_gui_editor(command: &str) -> (r: bool)
    ensures
        r == spec_is_known_gui_editor(command@),
{
    let base = editor_basename(command);
    let b = base.as_str();
    str_eq(b, "code") || str_eq(b, "cursor") || str_eq(b, "zed") || str_eq(b, "subl") || str_eq(b, "atom") || str_eq(b, "windsurf") || str_eq(b, "fleet") || str_eq(b, "idea") || str_eq(b, "pycharm")
}

/// The configured choice wins; otherwise known GUI editors run detached
/// and everything else in the terminal.
pub open spec fn spec_editor_launch_mode(command: Seq<char>, settings: EditorSettings) -> EditorLaunchMode {
    match settings.terminal {
        Some(true) => EditorLaunchMode::Terminal,
        Some(false) => EditorLaunchMode::Gui,
        None => if spec_is_known_gui_editor(command) {
            EditorLaunchMode::Gui
        } else {
            EditorLaunchMode::Terminal
        },
    }
}

pub fn editor_launch_mode(command: &str, settings: &EditorSettings) -> (r: EditorLaunchMode)
    ensures
        r == spec_editor_launch_mode(command@, *settings),
{
    if let Some(terminal) = settings.terminal {
        return if terminal {
            EditorLaunchMode::Terminal
        } else {
            EditorLaunchMode::Gui
        };
    }
    if is_known_gui_editor(command) {
        EditorLaunchMode::Gui
    } else {
        EditorLaunchMode::Terminal
    }
}

} // verus!
