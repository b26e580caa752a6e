//! Events that reach the application loop, the commands users issue, and
//! the side effects the reducer asks for.
use vstd::prelude::*;

use crate::agent::AgentId;
use crate::diff::{DiffSource, FileDiffLoadResult};
use crate::file_tree::DirectoryEntry;
use crate::git::{BranchEntry, GitFileEntry};
use crate::github::{
    GhContextMenuAction, GhContextTarget, GitHubAuthCheckResult, GitHubBrowserTarget, GitHubLeftPane,
    IssueActionResult, IssueDetailLoadResult, IssueListLoadResult, PrCreateRequest, PrDetailLoadResult,
    PrListLoadResult, RepoLabelsLoadResult,
};
use crate::navigation::NavCommand;
use crate::plugins::PluginInstallResult;
use crate::preview::PreviewLoadResult;

verus! {

#[non_exhaustive]
#[derive(Debug, Clone, PartialEq, Eq)]
pub enum AppEvent {
    Command(AppCommand),
    GitRefreshRequested,
    GitStatusUpdated {
        branch: Option<String>,
        remote_repo: Option<String>,
        ahead: u32,
        behind: u32,
        file_entries: Vec<GitFileEntry>,
        error: Option<String>,
    },
    Quit,
    ShellOutput(Vec<u8>),
    ShellExited(i32),
    AgentOutput { agent_id: AgentId, data: Vec<u8> },
    AgentExited { agent_id: AgentId, code: i32 },
    FileTreeChildrenLoaded { parent: String, children: Vec<DirectoryEntry>, error: Option<String> },
    PreviewLoaded { path: String, result: PreviewLoadResult },
    EditorLaunched { path: String, command: String },
    EditorLaunchFailed { path: String, error: String, show_modal: bool },
    FsChanged { paths: Vec<String> },
    DiffLoaded { result: FileDiffLoadResult },
    GitHubAuthChecked { result: GitHubAuthCheckResult },
    GitHubIssuesLoaded { result: IssueListLoadResult },
    GitHubPrsLoaded { result: PrListLoadResult },
    GitHubIssueDetailLoaded { number: u32, result: IssueDetailLoadResult },
    GitHubPrDetailLoaded { number: u32, result: PrDetailLoadResult },
    GitHubIssueCommentCompleted { number: u32, result: IssueActionResult },
    GitHubIssueCreateBranchCompleted { number: u32, result: IssueActionResult },
    GitHubRepoLabelsLoaded { result: RepoLabelsLoadResult },
    GitHubIssueLabelsApplied { number: u32, result: IssueActionResult },
    GitHubOpenBrowserCompleted { target: GitHubBrowserTarget, result: IssueActionResult },
    GitHubPrCreateCompleted { result: IssueActionResult },
    GitHubPrMergeCompleted { number: u32, result: IssueActionResult },
    BranchListLoaded { entries: Vec<BranchEntry>, error: Option<String> },
    BranchCheckoutCompleted { branch_name: String, error: Option<String> },
    /// Progress update while installing or reinstalling a plugin.
    PluginInstallProgress { message: String, step: u32, total: u32 },
    /// Plugin install or reinstall finished (success or failure).
    PluginInstallFinished { result: Option<PluginInstallResult>, error: Option<String> },
}

#[non_exhaustive]
#[derive(Debug, Clone, PartialEq, Eq)]
pub enum AppCommand {
    Navigation(NavCommand),
    Quit,
    RequestGitRefresh,
    GitHubRefresh,
    GitHubMoveIssueSelection(i32),
    GitHubMovePrSelection(i32),
    GitHubSelectIssue(usize),
    GitHubSelectPr(usize),
    GitHubOpenSelected,
    GitHubSelectLeftPane(GitHubLeftPane),
    GitHubIssueDetailScroll(i32),
    GitHubIssueDetailPageScroll(i32),
    GitHubPrDetailScroll(i32),
    GitHubPrDetailPageScroll(i32),
    GitHubLabelPickerMove(i32),
    GitHubLabelPickerToggle,
    GitHubLabelPickerApply,
    GitHubLabelPickerCancel,
    GitHubContextMenuOpen { anchor_x: u16, anchor_y: u16, target: GhContextTarget },
    GitHubContextMenuMove(i32),
    GitHubContextMenuExecute,
    GitHubContextMenuSelect(usize),
    GitHubContextMenuCancel,
    GitHubListAction { target: GhContextTarget, action: GhContextMenuAction },
    GitHubOpenInBrowser,
    ShellWrite(Vec<u8>),
    ShellScroll(i32),
    ShellScrollLines(i32),
    AgentWrite(Vec<u8>),
    AgentScroll(i32),
    AgentScrollLines(i32),
    AgentRestart,
    AgentNew,
    AgentCycleNext,
    AgentCyclePrev,
    AgentSetActive(AgentId),
    PaletteOpen,
    PaletteClose,
    PaletteAppendChar(char),
    PaletteBackspace,
    PaletteMoveSelection(i32),
    PaletteHistoryUp,
    PaletteHistoryDown,
    PaletteExecuteSelected,
    PaletteExecuteMatch(usize),
    FileTreeExpand(String),
    FileTreeCollapse(String),
    FileTreeSelect(String),
    FileTreeRefresh,
    FileTreeMoveSelection(i32),
    GitMoveSelection(i32),
    GitSelect(usize),
    GitOpenSelected,
    GitRefresh,
    BranchMoveSelection(i32),
    BranchSelect(usize),
    BranchCheckoutSelected,
    BranchRefresh,
    PreviewFile { path: String, line: Option<u32> },
    PreviewScroll(i32),
    PreviewPageScroll(i32),
    DiffScroll(i32),
    DiffPageScroll(i32),
    DiffHorizontalScroll(i32),
    DiffToggleSource,
    DiffSetSource(DiffSource),
    DiffNextFile,
    DiffPrevFile,
    DiffSelectFile(String),
    SearchSetQuery(String),
    SearchAppendChar(char),
    SearchBackspace,
    SearchClear,
    SearchExecute,
    SearchCancel,
    SearchMoveSelection(i32),
    SearchSelect(usize),
    OpenEditor { path: String, line: Option<u32> },
    ModalDismiss,
    ClipboardCopy,
    ClipboardCut,
    ClipboardPaste,
    PasteText(String),
    SelectionExtend { line: usize, col: usize },
    SelectionEnd,
    SelectionClear,
    SettingsMoveSelection(i32),
    SettingsSelect(usize),
    SettingsApplyTheme,
    SetTheme(String),
    /// Enable or disable a plugin; persisted through a side effect.
    PluginSetEnabled { name: String, enabled: bool },
    /// Install a plugin from a local directory into the plugins folder.
    PluginInstall { src_path: String },
    /// Remove an installed plugin (files and registry entry).
    PluginRemove { name: String },
    /// Remove and reinstall a plugin from a local directory.
    PluginReinstall { src_path: String },
    /// Switch the active agent command; persisted through a side effect.
    SetAgent { command: String, args: Vec<String> },
}

#[non_exhaustive]
#[derive(Debug, Clone, PartialEq, Eq)]
pub enum GitEffect {
    SpawnRefresh,
    SpawnBranchList,
    SpawnBranchCheckout { name: String },
}

#[non_exhaustive]
#[derive(Debug, Clone, PartialEq, Eq)]
pub enum GitHubEffect {
    SpawnRefresh,
    SpawnAuthCheck,
    SpawnIssueList,
    SpawnPrList,
    SpawnIssueDetail { number: u32 },
    SpawnPrDetail { number: u32 },
    SpawnIssueComment { number: u32, body: String },
    SpawnIssueCreateBranch { number: u32 },
    SpawnRepoLabels,
    SpawnIssueLabelApply { number: u32, labels: Vec<String> },
    SpawnOpenBrowser { target: GitHubBrowserTarget },
    SpawnPrCreate { request: PrCreateRequest },
    SpawnPrMerge { number: u32 },
}

#[non_exhaustive]
#[derive(Debug, Clone, PartialEq, Eq)]
pub enum ShellEffect {
    Write(Vec<u8>),
    Resize { cols: u16, rows: u16 },
}

#[non_exhaustive]
#[derive(Debug, Clone, PartialEq, Eq)]
pub enum AgentEffect {
    Spawn(AgentId),
    Restart(AgentId),
    Write(Vec<u8>),
}

#[non_exhaustive]
#[derive(Debug, Clone, PartialEq, Eq)]
pub enum FsEffect {
    LoadDirectoryChildren(String),
    LoadPreviewFile(String),
    LoadFileDiff { path: String, source: DiffSource },
    LaunchEditor { path: String, line: Option<u32> },
}

#[non_exhaustive]
#[derive(Debug, Clone, PartialEq, Eq)]
pub enum SideEffect {
    Quit,
    SaveWorkspace,
    PersistUserTheme { name: String },
    CopyToClipboard(String),
    PasteFromClipboard,
    Git(GitEffect),
    GitHub(GitHubEffect),
    Shell(ShellEffect),
    Agent(AgentEffect),
    Fs(FsEffect),
    /// Persist an enable or disable change to the plugin registry.
    PluginSetEnabled { name: String, enabled: bool },
    /// Copy a plugin directory into the plugins folder and register it.
    PluginInstall { src_path: String },
    /// Remove an installed plugin from disk and the registry.
    PluginRemove { name: String },
    /// Remove and reinstall a plugin from a local directory.
    PluginReinstall { src_path: String },
    /// Register a plugin after a successful background install.
    PluginInstallRegister { result: PluginInstallResult },
    /// Refresh the plugin list after a failed background install.
    PluginInstallFailed,
    /// Persist the chosen agent command to the user configuration.
    PersistAgentConfig { command: String, args: Vec<String> },
}

impl AppCommand {
    /// The command that performs a navigation request.
    pub fn from_nav(command: NavCommand) -> (r: Self)
        ensures
            r == AppCommand::Navigation(command),
    {
        AppCommand::Navigation(command)
    }
}

impl From<NavCommand> for AppCommand {
    fn from(command: NavCommand) -> (r: Self) {
        AppCommand::Navigation(command)
    }
}

impl vstd::std_specs::convert::FromSpecImpl<NavCommand> for AppCommand {
    open spec fn obeys_from_spec() -> bool {
        true
    }

    open spec fn from_spec(command: NavCommand) -> AppCommand {
        AppCommand::Navigation(command)
    }
}

} // verus!
