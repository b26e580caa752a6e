//! Configuration sections as read from TOML and the settings resolved from them.
pub mod document;
pub mod file_text;
pub mod types;
pub mod writer;

pub use types::{
    default_plugin_bin_directory, default_plugins_directory, expand_tilde, AgentSection,
    AgentSettings, AppSection, AppSettings, DiffSection, DiffSettings, EditorSection,
    EditorSettings, GitHubSection, GitHubSettings, GitSection, GitSettings, MouseMode,
    MouseSection, MouseSettings, PluginsSection, PluginsSettings, PreviewSection,
    PreviewSettings, RawConfig, ResolvedConfig, SearchSection, SearchSettings, ShellSection,
    ShellSettings, StatusBarSection, StatusBarSettings, ThemeSection, ThemeSettings,
    WatcherSection, WatcherSettings, WorkspaceSection, WorkspaceSettings,
};
pub use writer::user_config_path;
