use kiwi_core::git::patch::patch_git_file_entries;
use kiwi_core::git::{GitFileEntry, GitFileStatus};
use kiwi_core::ansi::{strip_ansi, visible_width};
use kiwi_core::config::EditorSettings;
use kiwi_core::diff::{DiffSource, FileDiffLoadResult};
use kiwi_core::editor::classify::{editor_basename, editor_launch_mode, EditorLaunchMode};
use kiwi_core::editor::resolve::{resolve_editor_command_with_env, uses_vim_line_arg, EditorSource};
use kiwi_core::env::{agent_env_vars, get_var, parse_dotenv, set_var};
use kiwi_core::events::AppCommand;
use kiwi_core::git::branches::sort_branch_entries;
use kiwi_core::git::BranchEntry;
use kiwi_core::navigation::{FocusTarget, LeftNavTab, MainTab, NavCommand};

#[test]
fn crate_has_version() {
    assert!(!kiwi_core::CRATE_VERSION.is_empty());
}

#[test]
fn strip_ansi_removes_color_codes() {
    assert_eq!(strip_ansi("\x1b[1;32mok\x1b[0m"), "ok");
}

#[test]
fn strip_ansi_keeps_plain_text_and_drops_lone_escape() {
    assert_eq!(strip_ansi("plain"), "plain");
    assert_eq!(strip_ansi("a\x1bb"), "ab");
    assert_eq!(strip_ansi("x\x1b[31"), "x");
}

#[test]
fn visible_width_counts_text_without_ansi() {
    assert_eq!(visible_width("\x1b[32mgreen\x1b[0m ok"), 8);
}

#[test]
fn diff_source_toggle_alternates() {
    assert_eq!(DiffSource::Unstaged.toggle(), DiffSource::Staged);
    assert_eq!(DiffSource::Staged.toggle(), DiffSource::Unstaged);
    assert_eq!(DiffSource::Staged.toggle().toggle(), DiffSource::Staged);
}

#[test]
fn file_diff_error_carries_message() {
    let result = FileDiffLoadResult::error("a.rs".to_string(), "boom".to_string());
    assert_eq!(result.path, "a.rs");
    assert!(result.lines.is_empty());
    assert_eq!(result.error, Some("boom".to_string()));
}

#[test]
fn gui_editors_launch_detached() {
    let settings = EditorSettings::default();
    assert_eq!(editor_launch_mode("cursor", &settings), EditorLaunchMode::Gui);
    assert_eq!(editor_launch_mode("code", &settings), EditorLaunchMode::Gui);
}

#[test]
fn terminal_editors_suspend_kiwi() {
    let settings = EditorSettings::default();
    assert_eq!(editor_launch_mode("nvim", &settings), EditorLaunchMode::Terminal);
    assert_eq!(editor_launch_mode("nano", &settings), EditorLaunchMode::Terminal);
}

#[test]
fn config_terminal_override_wins() {
    let settings = EditorSettings {
        configured_command: Some("cursor".to_string()),
        terminal: Some(true),
    };
    assert_eq!(editor_launch_mode("cursor", &settings), EditorLaunchMode::Terminal);
}

#[test]
fn editor_basename_takes_last_path_segment() {
    assert_eq!(editor_basename("/usr/local/bin/code"), "code");
    assert_eq!(editor_basename("nvim"), "nvim");
}

#[test]
fn config_command_takes_precedence() {
    let settings = EditorSettings {
        configured_command: Some("nvim".to_string()),
        terminal: None,
    };
    let resolved =
        resolve_editor_command_with_env(&settings, Some("code".to_string()), Some("vim".to_string()));
    assert_eq!(resolved.command, "nvim");
    assert_eq!(resolved.source, EditorSource::Config);
}

#[test]
fn visual_env_beats_editor_env() {
    let settings = EditorSettings::default();
    let resolved =
        resolve_editor_command_with_env(&settings, Some("code".to_string()), Some("vim".to_string()));
    assert_eq!(resolved.command, "code");
    assert_eq!(resolved.source, EditorSource::Visual);
}

#[test]
fn editor_env_used_when_visual_missing() {
    let settings = EditorSettings::default();
    let resolved = resolve_editor_command_with_env(&settings, None, Some("vim".to_string()));
    assert_eq!(resolved.command, "vim");
    assert_eq!(resolved.source, EditorSource::Editor);
}

#[test]
fn falls_back_to_nano_when_unset() {
    let settings = EditorSettings::default();
    let resolved = resolve_editor_command_with_env(&settings, None, None);
    assert_eq!(resolved.command, "nano");
    assert_eq!(resolved.source, EditorSource::Fallback);
}

#[test]
fn vim_family_detection() {
    assert!(uses_vim_line_arg("nvim"));
    assert!(uses_vim_line_arg("/usr/bin/vim"));
    assert!(!uses_vim_line_arg("code"));
}

#[test]
fn parse_dotenv_strips_quotes_and_comments() {
    let vars = parse_dotenv(
        "# comment\nDATABASE_URL=postgres://x\nOPENAI_API_KEY=\"sk-test\"\nEMPTY=\n",
    );
    assert_eq!(get_var(&vars, "DATABASE_URL").map(String::as_str), Some("postgres://x"));
    assert_eq!(get_var(&vars, "OPENAI_API_KEY").map(String::as_str), Some("sk-test"));
    assert!(get_var(&vars, "EMPTY").is_none());
}

#[test]
fn parse_dotenv_later_assignment_wins() {
    let vars = parse_dotenv("A=1\nA='2'\n=skip\nnoequals\n");
    assert_eq!(vars, vec![("A".to_string(), "2".to_string())]);
}

#[test]
fn set_var_replaces_existing_key() {
    let mut vars = Vec::new();
    set_var(&mut vars, "K".to_string(), "1".to_string());
    set_var(&mut vars, "K".to_string(), "2".to_string());
    assert_eq!(vars, vec![("K".to_string(), "2".to_string())]);
}

#[test]
fn agent_env_vars_skips_set_keys_and_defaults_embed_backend() {
    let parsed = parse_dotenv("DATABASE_URL=pg\nOPENAI_API_KEY=sk\nUNRELATED=x\n");
    let out = agent_env_vars(&parsed, &vec!["DATABASE_URL".to_string()]);
    assert!(get_var(&out, "DATABASE_URL").is_none());
    assert!(get_var(&out, "UNRELATED").is_none());
    assert_eq!(get_var(&out, "OPENAI_API_KEY").map(String::as_str), Some("sk"));
    assert_eq!(get_var(&out, "EMBED_BACKEND").map(String::as_str), Some("openai"));
}

#[test]
fn navigation_command_wraps_nav_command() {
    let cmd = AppCommand::from_nav(NavCommand::SelectLeftTab(LeftNavTab::Git));
    assert!(matches!(
        cmd,
        AppCommand::Navigation(NavCommand::SelectLeftTab(LeftNavTab::Git))
    ));
}

#[test]
fn focus_target_available_for_commands() {
    let cmd = AppCommand::Navigation(NavCommand::SetFocus(FocusTarget::Shell));
    assert!(matches!(
        cmd,
        AppCommand::Navigation(NavCommand::SetFocus(FocusTarget::Shell))
    ));
}

#[test]
fn main_tab_command_converts() {
    let cmd: AppCommand = NavCommand::SelectMainTab(MainTab::Issues).into();
    assert!(matches!(
        cmd,
        AppCommand::Navigation(NavCommand::SelectMainTab(MainTab::Issues))
    ));
}

#[test]
fn list_local_branches_puts_current_first_then_alphabetical() {
    let entry = |name: &str, is_current: bool| BranchEntry {
        name: name.to_string(),
        is_current,
    };
    let mut entries = vec![
        entry("zeta", false),
        entry("alpha", false),
        entry("main", true),
        entry("beta", false),
    ];
    sort_branch_entries(&mut entries);
    let names: Vec<_> = entries.iter().map(|e| e.name.as_str()).collect();
    assert_eq!(names, vec!["main", "alpha", "beta", "zeta"]);
}

#[test]
fn patched_git_entries_come_out_sorted_by_path() {
    let entry = |p: &str, s: GitFileStatus| GitFileEntry { path: p.to_string(), status: s };
    let mut current = vec![entry("b.rs", GitFileStatus::Modified), entry("z.rs", GitFileStatus::Added)];
    let incoming = vec![
        entry("z.rs", GitFileStatus::Added),
        entry("a.rs", GitFileStatus::Untracked),
        entry("b.rs", GitFileStatus::Deleted),
    ];
    patch_git_file_entries(&mut current, &incoming);
    let paths: Vec<&str> = current.iter().map(|e| e.path.as_str()).collect();
    assert_eq!(paths, vec!["a.rs", "b.rs", "z.rs"]);
    assert_eq!(current[1].status, GitFileStatus::Deleted);
}
