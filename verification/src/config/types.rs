use vstd::prelude::*;

use crate::path::{path_join, spec_path_join};
use crate::text::{is_prefix, slice_sub, str_chars, string_from_chars};

verus! {

/// `[app]` section.
#[derive(Debug, Clone, PartialEq, Eq, Default)]
pub struct AppSection {
    pub left_width: Option<u8>,
}

/// `[theme]` section.
#[derive(Debug, Clone, PartialEq, Eq, Default)]
pub struct ThemeSection {
    pub name: Option<String>,
    pub custom: Option<String>,
}

/// `[editor]` section.
#[derive(Debug, Clone, PartialEq, Eq, Default)]
pub struct EditorSection {
    pub command: Option<String>,
    /// When set, overrides automatic terminal vs GUI detection.
    pub terminal: Option<bool>,
}

/// `[agent]` section; `env` keeps the table's entries in order.
#[derive(Debug, Clone, PartialEq, Eq, Default)]
pub struct AgentSection {
    pub command: Option<String>,
    pub args: Option<Vec<String>>,
    pub env: Option<Vec<(String, String)>>,
}

/// `[shell]` section.
#[derive(Debug, Clone, PartialEq, Eq, Default)]
pub struct ShellSection {
    pub command: Option<String>,
    pub args: Option<Vec<String>>,
}

/// How the mouse is captured.
#[derive(Debug, Clone, Copy, PartialEq, Eq, Structural)]
pub enum MouseMode {
    Hybrid,
    Disabled,
}

impl Default for MouseMode {
    fn default() -> (r: Self)
        ensures
            r == MouseMode::Hybrid,
    {
        MouseMode::Hybrid
    }
}

/// `[mouse]` section.
#[derive(Debug, Clone, PartialEq, Eq, Default)]
pub struct MouseSection {
    pub enabled: Option<bool>,
    pub mode: Option<MouseMode>,
}

/// `[git]` section.
#[derive(Debug, Clone, PartialEq, Eq, Default)]
pub struct GitSection {
    pub watch: Option<bool>,
    pub show_untracked: Option<bool>,
}

/// `[github]` section.
#[derive(Debug, Clone, PartialEq, Eq, Default)]
pub struct GitHubSection {
    pub command: Option<String>,
}

/// `[workspace]` section.
#[derive(Debug, Clone, PartialEq, Eq, Default)]
pub struct WorkspaceSection {
    pub persist: Option<bool>,
    pub save_interval_secs: Option<u64>,
}

/// `[status_bar]` section.
#[derive(Debug, Clone, PartialEq, Eq, Default)]
pub struct StatusBarSection {
    pub show_issue: Option<bool>,
}

/// `[search]` section.
#[derive(Debug, Clone, PartialEq, Eq, Default)]
pub struct SearchSection {
    pub command: Option<String>,
    pub debounce_ms: Option<u64>,
}

/// `[preview]` section.
#[derive(Debug, Clone, PartialEq, Eq, Default)]
pub struct PreviewSection {
    pub max_size_bytes: Option<u64>,
    pub line_numbers: Option<bool>,
    pub wrap: Option<bool>,
}

/// `[watcher]` section.
#[derive(Debug, Clone, PartialEq, Eq, Default)]
pub struct WatcherSection {
    pub debounce_ms: Option<u64>,
}

/// `[plugins]` section.
#[derive(Debug, Clone, PartialEq, Eq, Default)]
pub struct PluginsSection {
    pub enabled: Option<bool>,
    pub directory: Option<String>,
}

/// `[diff]` section.
#[derive(Debug, Clone, PartialEq, Eq, Default)]
pub struct DiffSection {
    pub context_lines: Option<u32>,
    pub word_wrap: Option<bool>,
}

/// The parsed configuration file, every section optional. The `[gui]`
/// section holds a font size, a float, and is applied by the front end.
#[derive(Debug, Clone, PartialEq, Eq, Default)]
pub struct RawConfig {
    pub app: Option<AppSection>,
    pub theme: Option<ThemeSection>,
    pub editor: Option<EditorSection>,
    pub agent: Option<AgentSection>,
    pub shell: Option<ShellSection>,
    pub mouse: Option<MouseSection>,
    pub git: Option<GitSection>,
    pub github: Option<GitHubSection>,
    pub workspace: Option<WorkspaceSection>,
    pub status_bar: Option<StatusBarSection>,
    pub search: Option<SearchSection>,
    pub preview: Option<PreviewSection>,
    pub diff: Option<DiffSection>,
    pub watcher: Option<WatcherSection>,
    pub plugins: Option<PluginsSection>,
}

#[derive(Debug, Clone, PartialEq, Eq)]
pub struct AppSettings {
    pub left_width: u8,
}

#[derive(Debug, Clone, PartialEq, Eq)]
pub struct ThemeSettings {
    pub name: String,
    pub custom: Option<String>,
}

#[derive(Debug, Clone, PartialEq, Eq, Default)]
pub struct EditorSettings {
    /// Explicit `[editor] command`; when unset, the editor comes from
    /// `$VISUAL`, then `$EDITOR`, then `nano`.
    pub configured_command: Option<String>,
    /// When set, forces terminal suspend/resume or detached GUI launch.
    pub terminal: Option<bool>,
}

/// Agent command settings; `env` lists variables in configuration order.
#[derive(Debug, Clone, PartialEq, Eq)]
pub struct AgentSettings {
    pub command: String,
    pub args: Vec<String>,
    pub env: Vec<(String, String)>,
}

#[derive(Debug, Clone, PartialEq, Eq)]
pub struct ShellSettings {
    pub command: String,
    pub args: Vec<String>,
}

#[derive(Debug, Clone, PartialEq, Eq)]
pub struct MouseSettings {
    pub enabled: bool,
    pub mode: MouseMode,
}

#[derive(Debug, Clone, PartialEq, Eq)]
pub struct GitSettings {
    pub watch: bool,
    pub show_untracked: bool,
}

#[derive(Debug, Clone, PartialEq, Eq)]
pub struct GitHubSettings {
    pub command: String,
}

#[derive(Debug, Clone, PartialEq, Eq)]
pub struct WorkspaceSettings {
    pub persist: bool,
    pub save_interval_secs: u64,
}

#[derive(Debug, Clone, PartialEq, Eq)]
pub struct StatusBarSettings {
    pub show_issue: bool,
}

#[derive(Debug, Clone, PartialEq, Eq)]
pub struct SearchSettings {
    pub command: String,
    pub debounce_ms: u64,
}

#[derive(Debug, Clone, PartialEq, Eq)]
pub struct PreviewSettings {
    pub max_size_bytes: u64,
    pub line_numbers: bool,
    pub wrap: bool,
}

#[derive(Debug, Clone, PartialEq, Eq)]
pub struct DiffSettings {
    pub context_lines: u32,
    pub word_wrap: bool,
}

#[derive(Debug, Clone, PartialEq, Eq)]
pub struct WatcherSettings {
    pub debounce_ms: u64,
}

#[derive(Debug, Clone, PartialEq, Eq)]
pub struct PluginsSettings {
    pub enabled: bool,
    pub directory: String,
}

/// Settings after defaults and configuration files are combined (the GUI
/// font size is kept by the front end).
#[derive(Debug, Clone, PartialEq, Eq)]
pub struct ResolvedConfig {
    pub app: AppSettings,
    pub theme: ThemeSettings,
    pub editor: EditorSettings,
    pub agent: AgentSettings,
    pub shell: ShellSettings,
    pub mouse: MouseSettings,
    pub git: GitSettings,
    pub github: GitHubSettings,
    pub workspace: WorkspaceSettings,
    pub status_bar: StatusBarSettings,
    pub search: SearchSettings,
    pub preview: PreviewSettings,
    pub diff: DiffSettings,
    pub watcher: WatcherSettings,
    pub plugins: PluginsSettings,
}

/// `~/.config/kiwi/plugins` under `home`, or the relative path without one.
pub open spec fn spec_default_plugins_directory(home: Option<Seq<char>>) -> Seq<char> {
    match home {
        Some(h) => spec_path_join(h, ".config/kiwi/plugins"@),
        None => ".config/kiwi/plugins"@,
    }
}

/// Default plugin directory below a home directory.
pub fn default_plugins_directory(home: Option<&str>) -> (r: String)
    ensures
        r@ == spec_default_plugins_directory(match home {
            Some(h) => Some(h@),
            None => None,
        }),
{
    match home {
        Some(h) => path_join(h, ".config/kiwi/plugins"),
        None => String::from_str(".config/kiwi/plugins"),
    }
}

/// `~/.local/bin` under `home`, where plugin binaries go by default.
pub open spec fn spec_default_plugin_bin_directory(home: Option<Seq<char>>) -> Seq<char> {
    match home {
        Some(h) => spec_path_join(h, ".local/bin"@),
        None => ".local/bin"@,
    }
}

/// Default directory for binaries installed by plugins.
pub fn default_plugin_bin_directory(home: Option<&str>) -> (r: String)
    ensures
        r@ == spec_default_plugin_bin_directory(match home {
            Some(h) => Some(h@),
            None => None,
        }),
{
    match home {
        Some(h) => path_join(h, ".local/bin"),
        None => String::from_str(".local/bin"),
    }
}

/// `~` and `~/...` expanded against `home`; other paths unchanged.
pub open spec fn spec_expand_tilde(path: Seq<char>, home: Option<Seq<char>>) -> Seq<char> {
    if is_prefix("~/"@, path) {
        match home {
            Some(h) => spec_path_join(h, path.skip(2)),
            None => path,
        }
    } else if path == "~"@ {
        match home {
            Some(h) => h,
            None => path,
        }
    } else {
        path
    }
}

/// Expands a leading `~` with the home directory the caller resolved.
pub fn expand_tilde(path: &str, home: Option<&str>) -> (r: String)
    ensures
        r@ == spec_expand_tilde(path@, match home {
            Some(h) => Some(h@),
            None => None,
        }),
{
    let p = str_chars(path);
    proof {
        reveal_strlit("~/");
        reveal_strlit("~");
    }
    let starts = p.len() >= 2 && p[0] == '~' && p[1] == '/';
    proof {
        if p@.len() >= 2 {
            if p@[0] == '~' && p@[1] == '/' {
                assert(p@.take(2) =~= "~/"@);
            }
            if p@.take(2) =~= "~/"@ {
                assert(p@.take(2)[0] == p@[0]);
                assert(p@.take(2)[1] == p@[1]);
            }
        }
    }
    if starts {
        match home {
            Some(h) => {
                let rest = slice_sub(p.as_slice(), 2, p.len());
                assert(rest@ =~= path@.skip(2));
                let rest_s = string_from_chars(rest.as_slice());
                return path_join(h, rest_s.as_str());
            },
            None => return String::from_str(path),
        }
    }
    let is_tilde = p.len() == 1 && p[0] == '~';
    proof {
        if p@.len() == 1 && p@[0] == '~' {
            assert(p@ =~= "~"@);
        }
        if p@ == "~"@ {
            assert(p@[0] == '~');
        }
    }
    if is_tilde {
        match home {
            Some(h) => String::from_str(h),
            None => String::from_str(path),
        }
    } else {
        String::from_str(path)
    }
}

/// The value a configuration field takes: the section's value when the
/// section and the field are present, otherwise the current value.
pub open spec fn pick<S, T>(section: Option<S>, field: spec_fn(S) -> Option<T>, current: T) -> T {
    match section {
        Some(s) => match field(s) {
            Some(v) => v,
            None => current,
        },
        None => current,
    }
}

/// Like `pick`, for paths that go through tilde expansion.
pub open spec fn pick_path<S>(
    section: Option<S>,
    field: spec_fn(S) -> Option<String>,
    current: Seq<char>,
    home: Option<Seq<char>>,
) -> Seq<char> {
    match section {
        Some(s) => match field(s) {
            Some(v) => spec_expand_tilde(v@, home),
            None => current,
        },
        None => current,
    }
}

fn clone_string(s: &String) -> (r: String)
    ensures
        r@ == s@,
{
    s.clone()
}

fn clone_strings(v: &Vec<String>) -> (r: Vec<String>)
    ensures
        r@.len() == v@.len(),
        forall|i: int| 0 <= i < v@.len() ==> #[trigger] r@[i]@ == v@[i]@,
{
    let mut r: Vec<String> = Vec::new();
    let mut i: usize = 0;
    while i < v.len()
        invariant
            i <= v@.len(),
            r@.len() == i,
            forall|k: int| 0 <= k < i ==> #[trigger] r@[k]@ == v@[k]@,
        decreases v.len() - i,
    {
        r.push(clone_string(&v[i]));
        i = i + 1;
    }
    r
}

fn clone_pairs(v: &Vec<(String, String)>) -> (r: Vec<(String, String)>)
    ensures
        r@.len() == v@.len(),
        forall|i: int|
            0 <= i < v@.len() ==> #[trigger] r@[i].0@ == v@[i].0@ && r@[i].1@ == v@[i].1@,
{
    let mut r: Vec<(String, String)> = Vec::new();
    let mut i: usize = 0;
    while i < v.len()
        invariant
            i <= v@.len(),
            r@.len() == i,
            forall|k: int| 0 <= k < i ==> #[trigger] r@[k].0@ == v@[k].0@ && r@[k].1@ == v@[k].1@,
        decreases v.len() - i,
    {
        let (a, b) = (&v[i].0, &v[i].1);
        r.push((clone_string(a), clone_string(b)));
        i = i + 1;
    }
    r
}

/// Two string lists hold the same characters at every position.
pub open spec fn same_strings(a: Seq<String>, b: Seq<String>) -> bool {
    a.len() == b.len() && forall|i: int| 0 <= i < a.len() ==> #[trigger] a[i]@ == b[i]@
}

/// Two key/value lists hold the same characters at every position.
pub open spec fn same_pairs(a: Seq<(String, String)>, b: Seq<(String, String)>) -> bool {
    a.len() == b.len() && forall|i: int|
        0 <= i < a.len() ==> #[trigger] a[i].0@ == b[i].0@ && a[i].1@ == b[i].1@
}

fn apply_app(section: &Option<AppSection>, r: &mut AppSettings)
    ensures
        final(r).left_width == pick(*section, |s: AppSection| s.left_width, old(r).left_width),
{
    if let Some(app) = section {
        if let Some(left_width) = app.left_width {
            r.left_width = left_width;
        }
    }
}

fn apply_theme(section: &Option<ThemeSection>, r: &mut ThemeSettings, home: Option<&str>)
    ensures
        final(r).name@ == pick(*section, |s: ThemeSection| match s.name { Some(n) => Some(n@), None => None }, old(r).name@),
        (match *section {
            Some(t) => match t.custom {
                Some(c) => final(r).custom matches Some(x) && x@ == spec_expand_tilde(c@, opt_view(home)),
                None => final(r).custom == old(r).custom,
            },
            None => final(r).custom == old(r).custom,
        }),
{
    if let Some(theme) = section {
        if let Some(name) = &theme.name {
            r.name = clone_string(name);
        }
        if let Some(custom) = &theme.custom {
            r.custom = Some(expand_tilde(custom.as_str(), home));
        }
    }
}

fn apply_editor(section: &Option<EditorSection>, r: &mut EditorSettings)
    ensures
        (match *section {
            Some(e) => match e.command {
                Some(c) => final(r).configured_command matches Some(x) && x@ == c@,
                None => final(r).configured_command == old(r).configured_command,
            },
            None => final(r).configured_command == old(r).configured_command,
        }),
        final(r).terminal == pick(*section, |s: EditorSection| match s.terminal { Some(t) => Some(Some(t)), None => None }, old(r).terminal),
{
    if let Some(editor) = section {
        if let Some(command) = &editor.command {
            r.configured_command = Some(clone_string(command));
        }
        if let Some(terminal) = editor.terminal {
            r.terminal = Some(terminal);
        }
    }
}

fn apply_agent(section: &Option<AgentSection>, r: &mut AgentSettings)
    ensures
        final(r).command@ == pick(*section, |s: AgentSection| match s.command { Some(c) => Some(c@), None => None }, old(r).command@),
        (match *section {
            Some(a) => match a.args {
                Some(v) => same_strings(final(r).args@, v@),
                None => final(r).args == old(r).args,
            },
            None => final(r).args == old(r).args,
        }),
        (match *section {
            Some(a) => match a.env {
                Some(v) => same_pairs(final(r).env@, v@),
                None => final(r).env == old(r).env,
            },
            None => final(r).env == old(r).env,
        }),
{
    if let Some(agent) = section {
        if let Some(command) = &agent.command {
            r.command = clone_string(command);
        }
        if let Some(args) = &agent.args {
            r.args = clone_strings(args);
        }
        if let Some(env) = &agent.env {
            r.env = clone_pairs(env);
        }
    }
}

fn apply_shell(section: &Option<ShellSection>, r: &mut ShellSettings)
    ensures
        final(r).command@ == pick(*section, |s: ShellSection| match s.command { Some(c) => Some(c@), None => None }, old(r).command@),
        (match *section {
            Some(a) => match a.args {
                Some(v) => same_strings(final(r).args@, v@),
                None => final(r).args == old(r).args,
            },
            None => final(r).args == old(r).args,
        }),
{
    if let Some(shell) = section {
        if let Some(command) = &shell.command {
            r.command = clone_string(command);
        }
        if let Some(args) = &shell.args {
            r.args = clone_strings(args);
        }
    }
}

fn apply_mouse(section: &Option<MouseSection>, r: &mut MouseSettings)
    ensures
        final(r).enabled == pick(*section, |s: MouseSection| s.enabled, old(r).enabled),
        final(r).mode == pick(*section, |s: MouseSection| s.mode, old(r).mode),
{
    if let Some(sec) = section {
        if let Some(v) = sec.enabled {
            r.enabled = v;
        }
        if let Some(v) = sec.mode {
            r.mode = v;
        }
    }
}

fn apply_git(section: &Option<GitSection>, r: &mut GitSettings)
    ensures
        final(r).watch == pick(*section, |s: GitSection| s.watch, old(r).watch),
        final(r).show_untracked == pick(*section, |s: GitSection| s.show_untracked, old(r).show_untracked),
{
    if let Some(sec) = section {
        if let Some(v) = sec.watch {
            r.watch = v;
        }
        if let Some(v) = sec.show_untracked {
            r.show_untracked = v;
        }
    }
}

fn apply_github(section: &Option<GitHubSection>, r: &mut GitHubSettings)
    ensures
        final(r).command@ == pick(*section, |s: GitHubSection| match s.command { Some(c) => Some(c@), None => None }, old(r).command@),
{
    if let Some(sec) = section {
        if let Some(v) = &sec.command {
            r.command = clone_string(v);
        }
    }
}

fn apply_workspace(section: &Option<WorkspaceSection>, r: &mut WorkspaceSettings)
    ensures
        final(r).persist == pick(*section, |s: WorkspaceSection| s.persist, old(r).persist),
        final(r).save_interval_secs == pick(*section, |s: WorkspaceSection| s.save_interval_secs, old(r).save_interval_secs),
{
    if let Some(sec) = section {
        if let Some(v) = sec.persist {
            r.persist = v;
        }
        if let Some(v) = sec.save_interval_secs {
            r.save_interval_secs = v;
        }
    }
}

fn apply_status_bar(section: &Option<StatusBarSection>, r: &mut StatusBarSettings)
    ensures
        final(r).show_issue == pick(*section, |s: StatusBarSection| s.show_issue, old(r).show_issue),
{
    if let Some(sec) = section {
        if let Some(v) = sec.show_issue {
            r.show_issue = v;
        }
    }
}

fn apply_search(section: &Option<SearchSection>, r: &mut SearchSettings)
    ensures
        final(r).command@ == pick(*section, |s: SearchSection| match s.command { Some(c) => Some(c@), None => None }, old(r).command@),
        final(r).debounce_ms == pick(*section, |s: SearchSection| s.debounce_ms, old(r).debounce_ms),
{
    if let Some(sec) = section {
        if let Some(v) = &sec.command {
            r.command = clone_string(v);
        }
        if let Some(v) = sec.debounce_ms {
            r.debounce_ms = v;
        }
    }
}

fn apply_preview(section: &Option<PreviewSection>, r: &mut PreviewSettings)
    ensures
        final(r).max_size_bytes == pick(*section, |s: PreviewSection| s.max_size_bytes, old(r).max_size_bytes),
        final(r).line_numbers == pick(*section, |s: PreviewSection| s.line_numbers, old(r).line_numbers),
        final(r).wrap == pick(*section, |s: PreviewSection| s.wrap, old(r).wrap),
{
    if let Some(sec) = section {
        if let Some(v) = sec.max_size_bytes {
            r.max_size_bytes = v;
        }
        if let Some(v) = sec.line_numbers {
            r.line_numbers = v;
        }
        if let Some(v) = sec.wrap {
            r.wrap = v;
        }
    }
}

fn apply_diff(section: &Option<DiffSection>, r: &mut DiffSettings)
    ensures
        final(r).context_lines == pick(*section, |s: DiffSection| s.context_lines, old(r).context_lines),
        final(r).word_wrap == pick(*section, |s: DiffSection| s.word_wrap, old(r).word_wrap),
{
    if let Some(sec) = section {
        if let Some(v) = sec.context_lines {
            r.context_lines = v;
        }
        if let Some(v) = sec.word_wrap {
            r.word_wrap = v;
        }
    }
}

fn apply_watcher(section: &Option<WatcherSection>, r: &mut WatcherSettings)
    ensures
        final(r).debounce_ms == pick(*section, |s: WatcherSection| s.debounce_ms, old(r).debounce_ms),
{
    if let Some(sec) = section {
        if let Some(v) = sec.debounce_ms {
            r.debounce_ms = v;
        }
    }
}

fn apply_plugins_enabled(section: &Option<PluginsSection>, r: &mut PluginsSettings)
    ensures
        final(r).enabled == pick(*section, |s: PluginsSection| s.enabled, old(r).enabled),
        final(r).directory == old(r).directory,
{
    if let Some(sec) = section {
        if let Some(v) = sec.enabled {
            r.enabled = v;
        }
    }
}

/// The view of an optional string argument.
pub open spec fn opt_view(o: Option<&str>) -> Option<Seq<char>> {
    match o {
        Some(x) => Some(x@),
        None => None,
    }
}

impl RawConfig {
    /// Overlays the fields present in this file on `resolved`; paths starting
    /// with `~` are expanded against `home`.
    pub fn apply_to(&self, resolved: &mut ResolvedConfig, home: Option<&str>)
        ensures
            ({
                let old_r = *old(resolved);
                let new_r = *final(resolved);
                let h = match home {
                    Some(x) => Some(x@),
                    None => None,
                };
                &&& new_r.app.left_width == pick(self.app, |s: AppSection| s.left_width, old_r.app.left_width)
                &&& new_r.theme.name@ == pick(self.theme, |s: ThemeSection| match s.name { Some(n) => Some(n@), None => None }, old_r.theme.name@)
                &&& (match self.theme {
                    Some(t) => match t.custom {
                        Some(c) => new_r.theme.custom matches Some(x) && x@ == spec_expand_tilde(c@, h),
                        None => new_r.theme.custom == old_r.theme.custom,
                    },
                    None => new_r.theme.custom == old_r.theme.custom,
                })
                &&& (match self.editor {
                    Some(e) => match e.command {
                        Some(c) => new_r.editor.configured_command matches Some(x) && x@ == c@,
                        None => new_r.editor.configured_command == old_r.editor.configured_command,
                    },
                    None => new_r.editor.configured_command == old_r.editor.configured_command,
                })
                &&& new_r.editor.terminal == pick(self.editor, |s: EditorSection| match s.terminal { Some(t) => Some(Some(t)), None => None }, old_r.editor.terminal)
                &&& new_r.agent.command@ == pick(self.agent, |s: AgentSection| match s.command { Some(c) => Some(c@), None => None }, old_r.agent.command@)
                &&& (match self.agent {
                    Some(a) => match a.args {
                        Some(v) => same_strings(new_r.agent.args@, v@),
                        None => new_r.agent.args == old_r.agent.args,
                    },
                    None => new_r.agent.args == old_r.agent.args,
                })
                &&& (match self.agent {
                    Some(a) => match a.env {
                        Some(v) => same_pairs(new_r.agent.env@, v@),
                        None => new_r.agent.env == old_r.agent.env,
                    },
                    None => new_r.agent.env == old_r.agent.env,
                })
                &&& new_r.shell.command@ == pick(self.shell, |s: ShellSection| match s.command { Some(c) => Some(c@), None => None }, old_r.shell.command@)
                &&& (match self.shell {
                    Some(a) => match a.args {
                        Some(v) => same_strings(new_r.shell.args@, v@),
                        None => new_r.shell.args == old_r.shell.args,
                    },
                    None => new_r.shell.args == old_r.shell.args,
                })
                &&& new_r.mouse.enabled == pick(self.mouse, |s: MouseSection| s.enabled, old_r.mouse.enabled)
                &&& new_r.mouse.mode == pick(self.mouse, |s: MouseSection| s.mode, old_r.mouse.mode)
                &&& new_r.git.watch == pick(self.git, |s: GitSection| s.watch, old_r.git.watch)
                &&& new_r.git.show_untracked == pick(self.git, |s: GitSection| s.show_untracked, old_r.git.show_untracked)
                &&& new_r.github.command@ == pick(self.github, |s: GitHubSection| match s.command { Some(c) => Some(c@), None => None }, old_r.github.command@)
                &&& new_r.workspace.persist == pick(self.workspace, |s: WorkspaceSection| s.persist, old_r.workspace.persist)
                &&& new_r.workspace.save_interval_secs == pick(self.workspace, |s: WorkspaceSection| s.save_interval_secs, old_r.workspace.save_interval_secs)
                &&& new_r.status_bar.show_issue == pick(self.status_bar, |s: StatusBarSection| s.show_issue, old_r.status_bar.show_issue)
                &&& new_r.search.command@ == pick(self.search, |s: SearchSection| match s.command { Some(c) => Some(c@), None => None }, old_r.search.command@)
                &&& new_r.search.debounce_ms == pick(self.search, |s: SearchSection| s.debounce_ms, old_r.search.debounce_ms)
                &&& new_r.preview.max_size_bytes == pick(self.preview, |s: PreviewSection| s.max_size_bytes, old_r.preview.max_size_bytes)
                &&& new_r.preview.line_numbers == pick(self.preview, |s: PreviewSection| s.line_numbers, old_r.preview.line_numbers)
                &&& new_r.preview.wrap == pick(self.preview, |s: PreviewSection| s.wrap, old_r.preview.wrap)
                &&& new_r.diff.context_lines == pick(self.diff, |s: DiffSection| s.context_lines, old_r.diff.context_lines)
                &&& new_r.diff.word_wrap == pick(self.diff, |s: DiffSection| s.word_wrap, old_r.diff.word_wrap)
                &&& new_r.watcher.debounce_ms == pick(self.watcher, |s: WatcherSection| s.debounce_ms, old_r.watcher.debounce_ms)
                &&& new_r.plugins.enabled == pick(self.plugins, |s: PluginsSection| s.enabled, old_r.plugins.enabled)
                &&& new_r.plugins.directory@ == pick_path(self.plugins, |s: PluginsSection| s.directory, old_r.plugins.directory@, h)
            }),
    {
        apply_app(&self.app, &mut resolved.app);
        apply_theme(&self.theme, &mut resolved.theme, home);
        apply_editor(&self.editor, &mut resolved.editor);
        apply_agent(&self.agent, &mut resolved.agent);
        apply_shell(&self.shell, &mut resolved.shell);
        apply_mouse(&self.mouse, &mut resolved.mouse);
        apply_git(&self.git, &mut resolved.git);
        apply_github(&self.github, &mut resolved.github);
        apply_workspace(&self.workspace, &mut resolved.workspace);
        apply_status_bar(&self.status_bar, &mut resolved.status_bar);
        apply_search(&self.search, &mut resolved.search);
        apply_preview(&self.preview, &mut resolved.preview);
        apply_diff(&self.diff, &mut resolved.diff);
        apply_watcher(&self.watcher, &mut resolved.watcher);
        apply_plugins_enabled(&self.plugins, &mut resolved.plugins);
        if let Some(plugins) = &self.plugins {
            if let Some(directory) = &plugins.directory {
                resolved.plugins.directory = expand_tilde(directory.as_str(), home);
            }
        }
    }
}

impl ResolvedConfig {
    /// Built-in defaults; `shell_command` is the login shell (`$SHELL`, or
    /// `bash` when unset), which the caller reads from the environment.
    pub fn defaults(shell_command: String) -> (r: Self)
        ensures
            r.app.left_width == 30,
            r.theme.name@ == "kiwi-dark"@,
            r.theme.custom is None,
            r.editor.configured_command is None,
            r.editor.terminal is None,
            r.agent.command@ == "agent"@,
            r.agent.args@.len() == 0,
            r.agent.env@.len() == 0,
            r.shell.command@ == shell_command@,
            r.shell.args@.len() == 0,
            r.mouse.enabled,
            r.mouse.mode == MouseMode::Hybrid,
            r.git.watch,
            r.git.show_untracked,
            r.github.command@ == "gh"@,
            r.workspace.persist,
            r.workspace.save_interval_secs == 30,
            r.status_bar.show_issue,
            r.search.command@ == "rg"@,
            r.search.debounce_ms == 200,
            r.preview.max_size_bytes == 1048576,
            r.preview.line_numbers,
            !r.preview.wrap,
            r.diff.context_lines == 3,
            !r.diff.word_wrap,
            r.watcher.debounce_ms == 300,
            r.plugins.enabled,
            r.plugins.directory@ == spec_default_plugins_directory(None),
    {
        ResolvedConfig {
            app: AppSettings { left_width: 30 },
            theme: ThemeSettings { name: String::from_str("kiwi-dark"), custom: None },
            editor: EditorSettings { configured_command: None, terminal: None },
            agent: AgentSettings { command: String::from_str("agent"), args: Vec::new(), env: Vec::new() },
            shell: ShellSettings { command: shell_command, args: Vec::new() },
            mouse: MouseSettings { enabled: true, mode: MouseMode::Hybrid },
            git: GitSettings { watch: true, show_untracked: true },
            github: GitHubSettings { command: String::from_str("gh") },
            workspace: WorkspaceSettings { persist: true, save_interval_secs: 30 },
            status_bar: StatusBarSettings { show_issue: true },
            search: SearchSettings { command: String::from_str("rg"), debounce_ms: 200 },
            preview: PreviewSettings { max_size_bytes: 1048576, line_numbers: true, wrap: false },
            diff: DiffSettings { context_lines: 3, word_wrap: false },
            watcher: WatcherSettings { debounce_ms: 300 },
            plugins: PluginsSettings { enabled: true, directory: default_plugins_directory(None) },
        }
    }
}

/// Applying an empty configuration file changes nothing.
pub proof fn law_empty_config_is_identity<T>(current: T, f: spec_fn(AppSection) -> Option<T>)
    ensures
        pick(None, f, current) == current,
{
}

/// A path that does not start with `~` is never rewritten by tilde expansion.
pub proof fn law_expand_tilde_only_touches_tilde(path: Seq<char>, home: Option<Seq<char>>)
    requires
        path.len() == 0 || path[0] != '~',
    ensures
        spec_expand_tilde(path, home) == path,
{
    reveal_strlit("~/");
    reveal_strlit("~");
    if is_prefix("~/"@, path) {
        assert(path.take(2)[0] == path[0]);
    }
    if path == "~"@ {
        assert(path[0] == '~');
    }
}

} // verus!
