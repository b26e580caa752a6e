//! Choosing and launching the external editor.
pub mod classify;
pub mod resolve;

pub use classify::{editor_launch_mode, EditorLaunchMode};
pub use resolve::{
    resolve_editor_command_with_env, uses_vim_line_arg, EditorSource, ResolvedEditorCommand, RESOLUTION_HINT,
};
