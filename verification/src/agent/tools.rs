//! The tool catalogue of the native-chat agent, tool permission profiles,
//! and turning a `tool_use` request into a typed tool call.
use vstd::prelude::*;

use crate::text::{
    is_prefix, push_char, push_str, split_chars, split_pieces, str_chars, str_eq, string_from_chars, trim, trim_chars,
    lemma_split_pieces_len,
};
use crate::file_tree::classify::{ascii_lower, to_ascii_lowercase};

use super::json::{
    json_bool, json_get, json_opt_text, json_str, json_text, json_text_value, json_u64, json_value_text, member,
    parse_json_text, take_member, JsonMember, JsonNumber, JsonValue,
};

verus! {

/// Action of a `git.branch` call.
#[derive(Debug, Clone, Copy, PartialEq, Eq, Structural)]
pub enum GitBranchAction {
    List,
    Create,
    Checkout,
}

/// A tool call the agent may run locally.
#[derive(Debug, Clone, PartialEq, Eq)]
pub enum KiwiTool {
    FileRead { path: String },
    FileWrite { path: String, content: String },
    FilePatch { path: String, old_str: String, new_str: String },
    FileReadRange { path: String, start_line: u32, end_line: Option<u32> },
    FileDelete { path: String },
    FileMove { src: String, dest: String },
    FileList { path: String, depth: u8 },
    ShellRun { command: String },
    ShellCapture { command: String, timeout_secs: u32 },
    GitStatus,
    GitDiff { path: Option<String> },
    GitCommit { message: String, stage_all: bool },
    GitBranch { action: GitBranchAction, name: Option<String> },
    CargoCheck { package: Option<String> },
    CargoBuild { package: Option<String>, release: bool },
    CargoTest { filter: Option<String>, package: Option<String> },
    GitHubIssues { limit: u32, label: Option<String>, milestone: Option<String> },
    GitHubPrs { limit: u32, base: Option<String> },
    MemorySearch { query: String, limit: u32 },
    ProjectContext,
    FileSearch { query: String },
    FileGrep { query: String, path: Option<String> },
}

/// Why a `tool_use` request could not become a tool call.
#[derive(Debug, Clone, PartialEq, Eq)]
pub struct ToolParseError(pub String);

impl ToolParseError {
    /// The message.
    pub fn message(&self) -> (r: String)
        ensures
            r@ == self.0@,
    {
        string_from_chars(str_chars(self.0.as_str()).as_slice())
    }
}

/// One parameter of a tool's input schema.
#[derive(Debug, Clone, PartialEq, Eq)]
pub struct ToolParam {
    pub name: &'static str,
    pub kind: &'static str,
    pub description: &'static str,
    /// Allowed values, when the parameter is an enumeration.
    pub choices: Vec<&'static str>,
}

/// A tool as the registry describes it, in the dotted namespace.
#[derive(Debug, Clone, PartialEq, Eq)]
pub struct KiwiToolDef {
    pub id: &'static str,
    pub description: &'static str,
    pub params: Vec<ToolParam>,
    /// Names of the parameters a call must give, when the schema lists them.
    pub required: Option<Vec<&'static str>>,
}

/// The registry of compiled-in tools.
pub struct ToolRegistry;

/// Ids of the registered tools, in registry order.
pub open spec fn tool_ids() -> Seq<Seq<char>> {
    seq!["file.read"@, "file.write"@, "file.patch"@, "file.read_range"@, "file.delete"@, "file.move"@, "file.list"@, "shell.run"@, "shell.capture"@, "git.status"@, "git.diff"@, "git.commit"@, "git.branch"@, "cargo.check"@, "cargo.build"@, "cargo.test"@, "github.issues"@, "github.prs"@, "memory.search"@, "project.context"@, "file.search"@, "file.grep"@
    ]
}

/// Descriptions of the registered tools, in registry order.
pub open spec fn tool_descriptions() -> Seq<Seq<char>> {
    seq![
        "Read the full contents of a file in the repository."@,
        "Write (create or overwrite) a file in the repository."@,
        "Surgical edit: replace a unique old_str with new_str in a file."@,
        "Read a specific line range from a file with line numbers."@,
        "Delete a file from the repository."@,
        "Rename or move a file within the repository."@,
        "List files and directories under a path (up to a given depth)."@,
        "Run a shell command in kiwi's Terminal panel. Output appears in the Terminal tab, not inline in chat."@,
        "Run a shell command and return captured stdout/stderr to the agent."@,
        "Show the current git status: staged, modified, and untracked files."@,
        "Show the unified diff of uncommitted changes."@,
        "Stage changes (optional) and create a git commit with the given message."@,
        "List local branches, create a new branch, or checkout an existing branch."@,
        "Run cargo check in the repository root and return compiler output."@,
        "Run cargo build in the repository root and return build output."@,
        "Run cargo test in the repository root and return test output."@,
        "List open GitHub issues for the current repository using the gh CLI."@,
        "List open pull requests for the current repository using the gh CLI."@,
        "Search indexed project documentation (SPECs, ADRs, architecture notes) via semantic similarity."@,
        "Return a structured overview of the repository: branch, recent commits, directory layout, and key config files."@,
        "Find files whose names contain a given substring."@,
        "Search for text or a regex pattern within file contents (uses ripgrep when available)."@,
    ]
}

/// `(name, type, description)` of the parameters of tool `i`.
pub open spec fn tool_params(i: int) -> Seq<(Seq<char>, Seq<char>, Seq<char>)> {
    if i == 0 {
        seq![("path"@, "string"@, "Path relative to the repository root."@)]
    } else if i == 1 {
        seq![("path"@, "string"@, "Path relative to the repository root."@), ("content"@, "string"@, "Full file content to write."@)]
    } else if i == 2 {
        seq![("path"@, "string"@, "File path relative to repo root."@), ("old_str"@, "string"@, "Exact string to find (must be unique in the file)."@), ("new_str"@, "string"@, "Replacement string."@)]
    } else if i == 3 {
        seq![("path"@, "string"@, "File path relative to repo root."@), ("start_line"@, "integer"@, "First line to return (1-indexed)."@), ("end_line"@, "integer"@, "Last line to return (inclusive). Omit to read to end of file."@)]
    } else if i == 4 {
        seq![("path"@, "string"@, "File path relative to repo root."@)]
    } else if i == 5 {
        seq![("src"@, "string"@, "Current file path relative to repo root."@), ("dest"@, "string"@, "Destination path relative to repo root."@)]
    } else if i == 6 {
        seq![("path"@, "string"@, "Directory path relative to the repository root."@), ("depth"@, "integer"@, "Max recursion depth (default 2, max 5)."@)]
    } else if i == 7 {
        seq![("command"@, "string"@, "Shell command to execute."@)]
    } else if i == 8 {
        seq![("command"@, "string"@, "Shell command to run (executed via sh -c)."@), ("timeout_secs"@, "integer"@, "Max seconds to wait (default 30, max 120)."@)]
    } else if i == 9 {
        seq![]
    } else if i == 10 {
        seq![("path"@, "string"@, "Limit diff to this file (optional)."@)]
    } else if i == 11 {
        seq![("message"@, "string"@, "Commit message."@), ("stage_all"@, "boolean"@, "If true, run git add -A before committing (default true)."@)]
    } else if i == 12 {
        seq![("action"@, "string"@, "Action to perform (default: list)."@), ("name"@, "string"@, "Branch name (required for create/checkout)."@)]
    } else if i == 13 {
        seq![("package"@, "string"@, "Limit check to a specific package (optional, runs workspace check by default)."@)]
    } else if i == 14 {
        seq![("package"@, "string"@, "Limit to a specific package (optional)."@), ("release"@, "boolean"@, "Build in release mode (default false)."@)]
    } else if i == 15 {
        seq![("filter"@, "string"@, "Test name substring filter (optional)."@), ("package"@, "string"@, "Limit to a specific package (optional)."@)]
    } else if i == 16 {
        seq![("limit"@, "integer"@, "Max issues to return (default 20, max 100)."@), ("label"@, "string"@, "Filter by label (optional)."@), ("milestone"@, "string"@, "Filter by milestone title (optional)."@)]
    } else if i == 17 {
        seq![("limit"@, "integer"@, "Max PRs to return (default 20, max 100)."@), ("base"@, "string"@, "Filter by base branch (optional)."@)]
    } else if i == 18 {
        seq![("query"@, "string"@, "Natural language search query."@), ("limit"@, "integer"@, "Max results to return (default 5)."@)]
    } else if i == 19 {
        seq![]
    } else if i == 20 {
        seq![("query"@, "string"@, "Filename substring to search for."@)]
    } else if i == 21 {
        seq![("query"@, "string"@, "Text or regex pattern."@), ("path"@, "string"@, "Restrict search to this path (optional)."@)]
    } else {
        Seq::empty()
    }
}

/// Required parameter names of tool `i`, when its schema lists them.
pub open spec fn tool_required(i: int) -> Option<Seq<Seq<char>>> {
    if i == 0 {
        Some(seq!["path"@])
    } else if i == 1 {
        Some(seq!["path"@, "content"@])
    } else if i == 2 {
        Some(seq!["path"@, "old_str"@, "new_str"@])
    } else if i == 3 {
        Some(seq!["path"@, "start_line"@])
    } else if i == 4 {
        Some(seq!["path"@])
    } else if i == 5 {
        Some(seq!["src"@, "dest"@])
    } else if i == 6 {
        Some(seq!["path"@])
    } else if i == 7 {
        Some(seq!["command"@])
    } else if i == 8 {
        Some(seq!["command"@])
    } else if i == 11 {
        Some(seq!["message"@])
    } else if i == 18 {
        Some(seq!["query"@])
    } else if i == 20 {
        Some(seq!["query"@])
    } else if i == 21 {
        Some(seq!["query"@])
    } else {
        None
    }
}

/// Allowed values of parameter `k` of tool `i`; none when it is free.
pub open spec fn tool_choices(i: int, k: int) -> Seq<Seq<char>> {
    if i == 12 && k == 0 {
        seq!["list"@, "create"@, "checkout"@]
    } else {
        Seq::empty()
    }
}

/// The texts of a list of static strings.
pub open spec fn str_views(v: Seq<&'static str>) -> Seq<Seq<char>> {
    v.map_values(|c: &'static str| c@)
}

/// The registered tool `i` is described by the registry data.
pub open spec fn def_matches(d: KiwiToolDef, i: int) -> bool {
    &&& d.id@ == tool_ids()[i]
    &&& d.description@ == tool_descriptions()[i]
    &&& d.params@.len() == tool_params(i).len()
    &&& forall|k: int| 0 <= k < d.params@.len() ==> (#[trigger] d.params@[k].name@, d.params@[k].kind@, d.params@[k].description@) == tool_params(i)[k]
    &&& forall|k: int| 0 <= k < d.params@.len() ==> str_views((#[trigger] d.params@[k]).choices@) == tool_choices(i, k)
    &&& match (d.required, tool_required(i)) {
        (Some(v), Some(s)) => v@.len() == s.len() && forall|k: int| 0 <= k < s.len() ==> #[trigger] v@[k]@ == s[k],
        (None, None) => true,
        _ => false,
    }
}

fn param(name: &'static str, kind: &'static str, description: &'static str) -> (r: ToolParam)
    ensures
        r.name == name,
        r.kind == kind,
        r.description == description,
        r.choices@.len() == 0,
        str_views(r.choices@) == Seq::<Seq<char>>::empty(),
{
    let r = ToolParam { name, kind, description, choices: Vec::new() };
    assert(str_views(r.choices@) =~= Seq::<Seq<char>>::empty());
    r
}

impl ToolRegistry {
    /// Every registered tool definition, in registry order.
    #[verifier::rlimit(60)]
    pub fn all() -> (r: Vec<KiwiToolDef>)
        ensures
            r@.len() == 22,
            forall|i: int| 0 <= i < 22 ==> def_matches(#[trigger] r@[i], i),
    {
        let mut out: Vec<KiwiToolDef> = Vec::new();
        {
            let mut params: Vec<ToolParam> = Vec::new();
            params.push(param("path", "string", "Path relative to the repository root."));
            let d = KiwiToolDef { id: "file.read", description: "Read the full contents of a file in the repository.", params, required: Some(vec!["path"]) };
            assert(def_matches(d, 0));
            out.push(d);
        }
        {
            let mut params: Vec<ToolParam> = Vec::new();
            params.push(param("path", "string", "Path relative to the repository root."));
            params.push(param("content", "string", "Full file content to write."));
            let d = KiwiToolDef { id: "file.write", description: "Write (create or overwrite) a file in the repository.", params, required: Some(vec!["path", "content"]) };
            assert(def_matches(d, 1));
            out.push(d);
        }
        {
            let mut params: Vec<ToolParam> = Vec::new();
            params.push(param("path", "string", "File path relative to repo root."));
            params.push(param("old_str", "string", "Exact string to find (must be unique in the file)."));
            params.push(param("new_str", "string", "Replacement string."));
            let d = KiwiToolDef { id: "file.patch", description: "Surgical edit: replace a unique old_str with new_str in a file.", params, required: Some(vec!["path", "old_str", "new_str"]) };
            assert(def_matches(d, 2));
            out.push(d);
        }
        {
            let mut params: Vec<ToolParam> = Vec::new();
            params.push(param("path", "string", "File path relative to repo root."));
            params.push(param("start_line", "integer", "First line to return (1-indexed)."));
            params.push(param("end_line", "integer", "Last line to return (inclusive). Omit to read to end of file."));
            let d = KiwiToolDef { id: "file.read_range", description: "Read a specific line range from a file with line numbers.", params, required: Some(vec!["path", "start_line"]) };
            assert(def_matches(d, 3));
            out.push(d);
        }
        {
            let mut params: Vec<ToolParam> = Vec::new();
            params.push(param("path", "string", "File path relative to repo root."));
            let d = KiwiToolDef { id: "file.delete", description: "Delete a file from the repository.", params, required: Some(vec!["path"]) };
            assert(def_matches(d, 4));
            out.push(d);
        }
        {
            let mut params: Vec<ToolParam> = Vec::new();
            params.push(param("src", "string", "Current file path relative to repo root."));
            params.push(param("dest", "string", "Destination path relative to repo root."));
            let d = KiwiToolDef { id: "file.move", description: "Rename or move a file within the repository.", params, required: Some(vec!["src", "dest"]) };
            assert(def_matches(d, 5));
            out.push(d);
        }
        {
            let mut params: Vec<ToolParam> = Vec::new();
            params.push(param("path", "string", "Directory path relative to the repository root."));
            params.push(param("depth", "integer", "Max recursion depth (default 2, max 5)."));
            let d = KiwiToolDef { id: "file.list", description: "List files and directories under a path (up to a given depth).", params, required: Some(vec!["path"]) };
            assert(def_matches(d, 6));
            out.push(d);
        }
        {
            let mut params: Vec<ToolParam> = Vec::new();
            params.push(param("command", "string", "Shell command to execute."));
            let d = KiwiToolDef { id: "shell.run", description: "Run a shell command in kiwi's Terminal panel. Output appears in the Terminal tab, not inline in chat.", params, required: Some(vec!["command"]) };
            assert(def_matches(d, 7));
            out.push(d);
        }
        {
            let mut params: Vec<ToolParam> = Vec::new();
            params.push(param("command", "string", "Shell command to run (executed via sh -c)."));
            params.push(param("timeout_secs", "integer", "Max seconds to wait (default 30, max 120)."));
            let d = KiwiToolDef { id: "shell.capture", description: "Run a shell command and return captured stdout/stderr to the agent.", params, required: Some(vec!["command"]) };
            assert(def_matches(d, 8));
            out.push(d);
        }
        {
            let mut params: Vec<ToolParam> = Vec::new();
            let d = KiwiToolDef { id: "git.status", description: "Show the current git status: staged, modified, and untracked files.", params, required: None };
            assert(def_matches(d, 9));
            out.push(d);
        }
        {
            let mut params: Vec<ToolParam> = Vec::new();
            params.push(param("path", "string", "Limit diff to this file (optional)."));
            let d = KiwiToolDef { id: "git.diff", description: "Show the unified diff of uncommitted changes.", params, required: None };
            assert(def_matches(d, 10));
            out.push(d);
        }
        {
            let mut params: Vec<ToolParam> = Vec::new();
            params.push(param("message", "string", "Commit message."));
            params.push(param("stage_all", "boolean", "If true, run git add -A before committing (default true)."));
            let d = KiwiToolDef { id: "git.commit", description: "Stage changes (optional) and create a git commit with the given message.", params, required: Some(vec!["message"]) };
            assert(def_matches(d, 11));
            out.push(d);
        }
        {
            let mut params: Vec<ToolParam> = Vec::new();
            let choices = vec!["list", "create", "checkout"];
            assert(str_views(choices@) =~= seq!["list"@, "create"@, "checkout"@]);
            params.push(ToolParam { name: "action", kind: "string", description: "Action to perform (default: list).", choices });
            params.push(param("name", "string", "Branch name (required for create/checkout)."));
            let d = KiwiToolDef { id: "git.branch", description: "List local branches, create a new branch, or checkout an existing branch.", params, required: None };
            assert(def_matches(d, 12));
            out.push(d);
        }
        {
            let mut params: Vec<ToolParam> = Vec::new();
            params.push(param("package", "string", "Limit check to a specific package (optional, runs workspace check by default)."));
            let d = KiwiToolDef { id: "cargo.check", description: "Run cargo check in the repository root and return compiler output.", params, required: None };
            assert(def_matches(d, 13));
            out.push(d);
        }
        {
            let mut params: Vec<ToolParam> = Vec::new();
            params.push(param("package", "string", "Limit to a specific package (optional)."));
            params.push(param("release", "boolean", "Build in release mode (default false)."));
            let d = KiwiToolDef { id: "cargo.build", description: "Run cargo build in the repository root and return build output.", params, required: None };
            assert(def_matches(d, 14));
            out.push(d);
        }
        {
            let mut params: Vec<ToolParam> = Vec::new();
            params.push(param("filter", "string", "Test name substring filter (optional)."));
            params.push(param("package", "string", "Limit to a specific package (optional)."));
            let d = KiwiToolDef { id: "cargo.test", description: "Run cargo test in the repository root and return test output.", params, required: None };
            assert(def_matches(d, 15));
            out.push(d);
        }
        {
            let mut params: Vec<ToolParam> = Vec::new();
            params.push(param("limit", "integer", "Max issues to return (default 20, max 100)."));
            params.push(param("label", "string", "Filter by label (optional)."));
            params.push(param("milestone", "string", "Filter by milestone title (optional)."));
            let d = KiwiToolDef { id: "github.issues", description: "List open GitHub issues for the current repository using the gh CLI.", params, required: None };
            assert(def_matches(d, 16));
            out.push(d);
        }
        {
            let mut params: Vec<ToolParam> = Vec::new();
            params.push(param("limit", "integer", "Max PRs to return (default 20, max 100)."));
            params.push(param("base", "string", "Filter by base branch (optional)."));
            let d = KiwiToolDef { id: "github.prs", description: "List open pull requests for the current repository using the gh CLI.", params, required: None };
            assert(def_matches(d, 17));
            out.push(d);
        }
        {
            let mut params: Vec<ToolParam> = Vec::new();
            params.push(param("query", "string", "Natural language search query."));
            params.push(param("limit", "integer", "Max results to return (default 5)."));
            let d = KiwiToolDef { id: "memory.search", description: "Search indexed project documentation (SPECs, ADRs, architecture notes) via semantic similarity.", params, required: Some(vec!["query"]) };
            assert(def_matches(d, 18));
            out.push(d);
        }
        {
            let mut params: Vec<ToolParam> = Vec::new();
            let d = KiwiToolDef { id: "project.context", description: "Return a structured overview of the repository: branch, recent commits, directory layout, and key config files.", params, required: None };
            assert(def_matches(d, 19));
            out.push(d);
        }
        {
            let mut params: Vec<ToolParam> = Vec::new();
            params.push(param("query", "string", "Filename substring to search for."));
            let d = KiwiToolDef { id: "file.search", description: "Find files whose names contain a given substring.", params, required: Some(vec!["query"]) };
            assert(def_matches(d, 20));
            out.push(d);
        }
        {
            let mut params: Vec<ToolParam> = Vec::new();
            params.push(param("query", "string", "Text or regex pattern."));
            params.push(param("path", "string", "Restrict search to this path (optional)."));
            let d = KiwiToolDef { id: "file.grep", description: "Search for text or a regex pattern within file contents (uses ripgrep when available).", params, required: Some(vec!["query"]) };
            assert(def_matches(d, 21));
            out.push(d);
        }
        proof {
            assert forall|i: int| 0 <= i < 22 implies def_matches(#[trigger] out@[i], i) by {
            }
        }
        out
    }
}

/// "missing required field '`f`'".
pub open spec fn missing_field(f: Seq<char>) -> Seq<char> {
    "missing required field '"@ + f + "'"@
}

/// The first of the string members `fs` that `input` lacks.
pub open spec fn first_missing(input: JsonValue, fs: Seq<Seq<char>>) -> Option<Seq<char>>
    decreases fs.len(),
{
    if fs.len() == 0 {
        None
    } else if json_str(json_get(input, fs[0])) is None {
        Some(missing_field(fs[0]))
    } else {
        first_missing(input, fs.drop_first())
    }
}

/// Action of a `git.branch` call: `list` unless given.
pub open spec fn spec_branch_action(input: JsonValue) -> Result<GitBranchAction, Seq<char>> {
    let a = match json_str(json_get(input, "action"@)) {
        Some(s) => s,
        None => "list"@,
    };
    if a == "list"@ {
        Ok(GitBranchAction::List)
    } else if a == "create"@ {
        Ok(GitBranchAction::Create)
    } else if a == "checkout"@ {
        Ok(GitBranchAction::Checkout)
    } else {
        Err("invalid git.branch action '"@ + a + "'"@)
    }
}

/// Why a `tool_use` request named `name` is refused, if it is.
pub open spec fn spec_tool_error(name: Seq<char>, input: JsonValue) -> Option<Seq<char>> {
    if name == "file.read"@ || name == "file.delete"@ || name == "file.list"@ {
        first_missing(input, seq!["path"@])
    } else if name == "file.write"@ {
        first_missing(input, seq!["path"@, "content"@])
    } else if name == "file.patch"@ {
        first_missing(input, seq!["path"@, "old_str"@, "new_str"@])
    } else if name == "file.read_range"@ {
        match first_missing(input, seq!["path"@]) {
            Some(e) => Some(e),
            None => match json_u64(json_get(input, "start_line"@)) {
                None => Some(missing_field("start_line"@)),
                Some(l) => if l == 0 {
                    Some("'start_line' must be >= 1"@)
                } else {
                    None
                },
            },
        }
    } else if name == "file.move"@ {
        first_missing(input, seq!["src"@, "dest"@])
    } else if name == "shell.run"@ || name == "shell.capture"@ {
        first_missing(input, seq!["command"@])
    } else if name == "git.commit"@ {
        first_missing(input, seq!["message"@])
    } else if name == "memory.search"@ || name == "file.search"@ || name == "file.grep"@ {
        first_missing(input, seq!["query"@])
    } else if name == "git.branch"@ {
        match spec_branch_action(input) {
            Err(e) => Some(e),
            Ok(GitBranchAction::List) => None,
            Ok(_) => match json_str(json_get(input, "name"@)) {
                None => Some(missing_field("name"@)),
                Some(n) => if trim(n).len() == 0 {
                    Some("branch name must not be empty"@)
                } else {
                    None
                },
            },
        }
    } else if name == "git.status"@ || name == "git.diff"@ || name == "cargo.check"@ || name == "cargo.build"@
        || name == "cargo.test"@ || name == "github.issues"@ || name == "github.prs"@ || name == "project.context"@ {
        None
    } else {
        Some("unknown tool '"@ + name + "'"@)
    }
}

/// `Some` of the view of a string, or `None`.
pub open spec fn opt_chars(o: Option<String>) -> Option<Seq<char>> {
    match o {
        Some(s) => Some(s@),
        None => None,
    }
}

/// A string member, as given.
pub open spec fn text_is(input: JsonValue, f: Seq<char>, v: String) -> bool {
    json_str(json_get(input, f)) == Some(v@)
}

/// `v` clamped into `[lo, hi]`.
pub open spec fn clamp_u64(v: u64, lo: u64, hi: u64) -> u64 {
    if v < lo {
        lo
    } else if v > hi {
        hi
    } else {
        v
    }
}

/// A numeric member or its default.
pub open spec fn u64_or(input: JsonValue, f: Seq<char>, d: u64) -> u64 {
    match json_u64(json_get(input, f)) {
        Some(v) => v,
        None => d,
    }
}

/// The low 32 bits of a line number (`as u32`).
pub open spec fn low32(v: u64) -> u32 {
    (v % 0x1_0000_0000) as u32
}

/// The tool call that an accepted request describes.
pub open spec fn tool_matches(name: Seq<char>, input: JsonValue, t: KiwiTool) -> bool {
    match t {
        KiwiTool::FileRead { path } => name == "file.read"@ && text_is(input, "path"@, path),
        KiwiTool::FileWrite { path, content } => name == "file.write"@ && text_is(input, "path"@, path)
            && text_is(input, "content"@, content),
        KiwiTool::FilePatch { path, old_str, new_str } => name == "file.patch"@ && text_is(input, "path"@, path)
            && text_is(input, "old_str"@, old_str) && text_is(input, "new_str"@, new_str),
        KiwiTool::FileReadRange { path, start_line, end_line } => name == "file.read_range"@ && text_is(
            input,
            "path"@,
            path,
        ) && start_line == low32(u64_or(input, "start_line"@, 0)) && end_line == match json_u64(
            json_get(input, "end_line"@),
        ) {
            Some(l) => if l == 0 {
                None
            } else {
                Some(low32(l))
            },
            None => None,
        },
        KiwiTool::FileDelete { path } => name == "file.delete"@ && text_is(input, "path"@, path),
        KiwiTool::FileMove { src, dest } => name == "file.move"@ && text_is(input, "src"@, src) && text_is(
            input,
            "dest"@,
            dest,
        ),
        KiwiTool::FileList { path, depth } => name == "file.list"@ && text_is(input, "path"@, path) && depth
            == (if u64_or(input, "depth"@, 2) > 5 {
            5
        } else {
            u64_or(input, "depth"@, 2)
        }),
        KiwiTool::ShellRun { command } => name == "shell.run"@ && text_is(input, "command"@, command),
        KiwiTool::ShellCapture { command, timeout_secs } => name == "shell.capture"@ && text_is(
            input,
            "command"@,
            command,
        ) && timeout_secs == clamp_u64(u64_or(input, "timeout_secs"@, 30), 1, 120),
        KiwiTool::GitStatus => name == "git.status"@,
        KiwiTool::GitDiff { path } => name == "git.diff"@ && opt_chars(path) == json_opt_text(
            json_get(input, "path"@),
        ),
        KiwiTool::GitCommit { message, stage_all } => name == "git.commit"@ && text_is(input, "message"@, message)
            && stage_all == match json_bool(json_get(input, "stage_all"@)) {
            Some(b) => b,
            None => true,
        },
        KiwiTool::GitBranch { action, name: branch } => name == "git.branch"@ && spec_branch_action(input) == Ok::<
            GitBranchAction,
            Seq<char>,
        >(action) && opt_chars(branch) == if action == GitBranchAction::List {
            None
        } else {
            json_str(json_get(input, "name"@))
        },
        KiwiTool::CargoCheck { package } => name == "cargo.check"@ && opt_chars(package) == json_opt_text(
            json_get(input, "package"@),
        ),
        KiwiTool::CargoBuild { package, release } => name == "cargo.build"@ && opt_chars(package) == json_opt_text(
            json_get(input, "package"@),
        ) && release == match json_bool(json_get(input, "release"@)) {
            Some(b) => b,
            None => false,
        },
        KiwiTool::CargoTest { filter, package } => name == "cargo.test"@ && opt_chars(filter) == json_opt_text(
            json_get(input, "filter"@),
        ) && opt_chars(package) == json_opt_text(json_get(input, "package"@)),
        KiwiTool::GitHubIssues { limit, label, milestone } => name == "github.issues"@ && limit == clamp_u64(
            u64_or(input, "limit"@, 20),
            1,
            100,
        ) && opt_chars(label) == json_opt_text(json_get(input, "label"@)) && opt_chars(milestone)
            == json_opt_text(json_get(input, "milestone"@)),
        KiwiTool::GitHubPrs { limit, base } => name == "github.prs"@ && limit == clamp_u64(
            u64_or(input, "limit"@, 20),
            1,
            100,
        ) && opt_chars(base) == json_opt_text(json_get(input, "base"@)),
        KiwiTool::MemorySearch { query, limit } => name == "memory.search"@ && text_is(input, "query"@, query)
            && limit == clamp_u64(u64_or(input, "limit"@, 5), 1, 20),
        KiwiTool::ProjectContext => name == "project.context"@,
        KiwiTool::FileSearch { query } => name == "file.search"@ && text_is(input, "query"@, query),
        KiwiTool::FileGrep { query, path } => name == "file.grep"@ && text_is(input, "query"@, query) && opt_chars(
            path,
        ) == json_opt_text(json_get(input, "path"@)),
    }
}

/// `v` is the JSON string `t`.
pub open spec fn is_json_text(v: JsonValue, t: Seq<char>) -> bool {
    v matches JsonValue::String(s) && s@ == t
}

/// `v` is the JSON array of the strings `ts`.
pub open spec fn is_text_array(v: JsonValue, ts: Seq<Seq<char>>) -> bool {
    &&& v is Array
    &&& v->Array_0@.len() == ts.len()
    &&& forall|k: int| 0 <= k < ts.len() ==> is_json_text(#[trigger] v->Array_0@[k], ts[k])
}

/// `v` is the JSON schema of parameter `p`: its type and description, and
/// its allowed values when it lists some.
pub open spec fn is_param_schema(p: ToolParam, v: JsonValue) -> bool {
    let ms = v->Object_0@;
    &&& v is Object
    &&& ms.len() == if p.choices@.len() > 0 {
        3nat
    } else {
        2nat
    }
    &&& ms[0].key@ == "type"@ && is_json_text(ms[0].value, p.kind@)
    &&& ms[1].key@ == "description"@ && is_json_text(ms[1].value, p.description@)
    &&& p.choices@.len() > 0 ==> ms[2].key@ == "enum"@ && is_text_array(ms[2].value, str_views(p.choices@))
}

/// `v` is the JSON schema of the input of tool `d`: an object with one
/// property per parameter, in order, and the required names when the tool
/// lists them.
pub open spec fn is_input_schema(d: KiwiToolDef, v: JsonValue) -> bool {
    let ms = v->Object_0@;
    let props = ms[1].value->Object_0@;
    &&& v is Object
    &&& ms.len() == if d.required is Some {
        3nat
    } else {
        2nat
    }
    &&& ms[0].key@ == "type"@ && is_json_text(ms[0].value, "object"@)
    &&& ms[1].key@ == "properties"@ && ms[1].value is Object
    &&& props.len() == d.params@.len()
    &&& forall|k: int|
        0 <= k < props.len() ==> (#[trigger] props[k]).key@ == d.params@[k].name@ && is_param_schema(
            d.params@[k],
            props[k].value,
        )
    &&& d.required matches Some(req) ==> ms[2].key@ == "required"@ && is_text_array(ms[2].value, str_views(req@))
}

fn json_string(s: &str) -> (r: JsonValue)
    ensures
        is_json_text(r, s@),
{
    JsonValue::String(owned(s))
}

fn text_array(items: &Vec<&'static str>) -> (r: JsonValue)
    ensures
        is_text_array(r, str_views(items@)),
{
    let mut xs: Vec<JsonValue> = Vec::new();
    let mut i: usize = 0;
    while i < items.len()
        invariant
            i <= items@.len(),
            xs@.len() == i,
            forall|k: int| 0 <= k < i ==> is_json_text(#[trigger] xs@[k], items@[k]@),
        decreases items.len() - i,
    {
        xs.push(json_string(items[i]));
        i = i + 1;
    }
    JsonValue::Array(xs)
}

impl ToolParam {
    /// The JSON schema of this parameter.
    pub fn schema(&self) -> (r: JsonValue)
        ensures
            is_param_schema(*self, r),
    {
        let mut ms: Vec<JsonMember> = Vec::new();
        ms.push(JsonMember { key: owned("type"), value: json_string(self.kind) });
        ms.push(JsonMember { key: owned("description"), value: json_string(self.description) });
        if self.choices.len() > 0 {
            ms.push(JsonMember { key: owned("enum"), value: text_array(&self.choices) });
        }
        JsonValue::Object(ms)
    }
}

impl KiwiToolDef {
    /// The JSON schema of this tool's input, as the provider APIs take it.
    pub fn input_schema(&self) -> (r: JsonValue)
        ensures
            is_input_schema(*self, r),
    {
        let mut props: Vec<JsonMember> = Vec::new();
        let mut i: usize = 0;
        while i < self.params.len()
            invariant
                i <= self.params@.len(),
                props@.len() == i,
                forall|k: int|
                    0 <= k < i ==> (#[trigger] props@[k]).key@ == self.params@[k].name@ && is_param_schema(
                        self.params@[k],
                        props@[k].value,
                    ),
            decreases self.params.len() - i,
        {
            let p = &self.params[i];
            props.push(JsonMember { key: owned(p.name), value: p.schema() });
            i = i + 1;
        }
        let mut ms: Vec<JsonMember> = Vec::new();
        ms.push(JsonMember { key: owned("type"), value: json_string("object") });
        ms.push(JsonMember { key: owned("properties"), value: JsonValue::Object(props) });
        match &self.required {
            Some(req) => ms.push(JsonMember { key: owned("required"), value: text_array(req) }),
            None => {},
        }
        JsonValue::Object(ms)
    }
}

fn owned(s: &str) -> (r: String)
    ensures
        r@ == s@,
{
    let mut o = String::new();
    push_str(&mut o, s);
    o
}

fn missing_field_error(f: &str) -> (r: ToolParseError)
    ensures
        r.0@ == missing_field(f@),
{
    let mut m = owned("missing required field '");
    push_str(&mut m, f);
    push_str(&mut m, "'");
    ToolParseError(m)
}

/// A required string member.
fn required_text(input: &JsonValue, f: &str) -> (r: Result<String, ToolParseError>)
    ensures
        match r {
            Ok(s) => json_str(json_get(*input, f@)) == Some(s@),
            Err(e) => json_str(json_get(*input, f@)) is None && e.0@ == missing_field(f@),
        },
{
    match input.str_field(f) {
        Some(s) => Ok(s),
        None => Err(missing_field_error(f)),
    }
}

fn clamp_exec(v: u64, lo: u64, hi: u64) -> (r: u64)
    ensures
        r == clamp_u64(v, lo, hi),
{
    if v < lo {
        lo
    } else if v > hi {
        hi
    } else {
        v
    }
}

fn branch_action(input: &JsonValue) -> (r: Result<GitBranchAction, ToolParseError>)
    ensures
        match r {
            Ok(a) => spec_branch_action(*input) == Ok::<GitBranchAction, Seq<char>>(a),
            Err(e) => spec_branch_action(*input) == Err::<GitBranchAction, Seq<char>>(e.0@),
        },
{
    let a = match input.str_field("action") {
        Some(s) => s,
        None => owned("list"),
    };
    if str_eq(a.as_str(), "list") {
        Ok(GitBranchAction::List)
    } else if str_eq(a.as_str(), "create") {
        Ok(GitBranchAction::Create)
    } else if str_eq(a.as_str(), "checkout") {
        Ok(GitBranchAction::Checkout)
    } else {
        let mut m = owned("invalid git.branch action '");
        push_str(&mut m, a.as_str());
        push_str(&mut m, "'");
        Err(ToolParseError(m))
    }
}

impl KiwiTool {
    /// Reads a `tool_use` request: the tool named `name` with the members
    /// of `input` it needs; an unknown name or a missing required member
    /// is refused with the reason.
    #[verifier::rlimit(80)]
    pub fn from_tool_use(name: &str, input: &JsonValue) -> (r: Result<KiwiTool, ToolParseError>)
        ensures
            match r {
                Ok(t) => spec_tool_error(name@, *input) is None && tool_matches(name@, *input, t),
                Err(e) => spec_tool_error(name@, *input) == Some(e.0@),
            },
    {
        proof {
            reveal_with_fuel(first_missing, 4);
            reveal_strlit("file.read");
            reveal_strlit("file.write");
            reveal_strlit("file.patch");
            reveal_strlit("file.read_range");
            reveal_strlit("file.delete");
            reveal_strlit("file.move");
            reveal_strlit("file.list");
            reveal_strlit("shell.run");
            reveal_strlit("shell.capture");
            reveal_strlit("git.status");
            reveal_strlit("git.diff");
            reveal_strlit("git.commit");
            reveal_strlit("git.branch");
            reveal_strlit("cargo.check");
            reveal_strlit("cargo.build");
            reveal_strlit("cargo.test");
            reveal_strlit("github.issues");
            reveal_strlit("github.prs");
            reveal_strlit("memory.search");
            reveal_strlit("project.context");
            reveal_strlit("file.search");
            reveal_strlit("file.grep");
            assert("file.read"@.len() == 9);
            assert("file.write"@.len() == 10);
            assert("file.patch"@.len() == 10);
            assert("file.read_range"@.len() == 15);
            assert("file.delete"@.len() == 11);
            assert("file.move"@.len() == 9);
            assert("file.list"@.len() == 9);
            assert("shell.run"@.len() == 9);
            assert("shell.capture"@.len() == 13);
            assert("git.status"@.len() == 10);
            assert("git.diff"@.len() == 8);
            assert("git.commit"@.len() == 10);
            assert("git.branch"@.len() == 10);
            assert("cargo.check"@.len() == 11);
            assert("cargo.build"@.len() == 11);
            assert("cargo.test"@.len() == 10);
            assert("github.issues"@.len() == 13);
            assert("github.prs"@.len() == 10);
            assert("memory.search"@.len() == 13);
            assert("project.context"@.len() == 15);
            assert("file.search"@.len() == 11);
            assert("file.grep"@.len() == 9);
            assert("file.read"@[5] != "file.move"@[5]);
            assert("file.read"@[5] != "file.list"@[5]);
            assert("file.read"@[0] != "shell.run"@[0]);
            assert("file.read"@[5] != "file.grep"@[5]);
            assert("file.write"@[5] != "file.patch"@[5]);
            assert("file.write"@[0] != "git.status"@[0]);
            assert("file.write"@[0] != "git.commit"@[0]);
            assert("file.write"@[0] != "git.branch"@[0]);
            assert("file.write"@[0] != "cargo.test"@[0]);
            assert("file.write"@[0] != "github.prs"@[0]);
            assert("file.patch"@[0] != "git.status"@[0]);
            assert("file.patch"@[0] != "git.commit"@[0]);
            assert("file.patch"@[0] != "git.branch"@[0]);
            assert("file.patch"@[0] != "cargo.test"@[0]);
            assert("file.patch"@[0] != "github.prs"@[0]);
            assert("file.read_range"@[0] != "project.context"@[0]);
            assert("file.delete"@[0] != "cargo.check"@[0]);
            assert("file.delete"@[0] != "cargo.build"@[0]);
            assert("file.delete"@[5] != "file.search"@[5]);
            assert("file.move"@[5] != "file.list"@[5]);
            assert("file.move"@[0] != "shell.run"@[0]);
            assert("file.move"@[5] != "file.grep"@[5]);
            assert("file.list"@[0] != "shell.run"@[0]);
            assert("file.list"@[5] != "file.grep"@[5]);
            assert("shell.run"@[0] != "file.grep"@[0]);
            assert("shell.capture"@[0] != "github.issues"@[0]);
            assert("shell.capture"@[0] != "memory.search"@[0]);
            assert("git.status"@[4] != "git.commit"@[4]);
            assert("git.status"@[4] != "git.branch"@[4]);
            assert("git.status"@[0] != "cargo.test"@[0]);
            assert("git.status"@[3] != "github.prs"@[3]);
            assert("git.commit"@[4] != "git.branch"@[4]);
            assert("git.commit"@[0] != "cargo.test"@[0]);
            assert("git.commit"@[3] != "github.prs"@[3]);
            assert("git.branch"@[0] != "cargo.test"@[0]);
            assert("git.branch"@[3] != "github.prs"@[3]);
            assert("cargo.check"@[6] != "cargo.build"@[6]);
            assert("cargo.check"@[0] != "file.search"@[0]);
            assert("cargo.build"@[0] != "file.search"@[0]);
            assert("cargo.test"@[0] != "github.prs"@[0]);
            assert("github.issues"@[0] != "memory.search"@[0]);
        }
        if str_eq(name, "file.read") {
            let path = match required_text(input, "path") {
                Ok(v) => v,
                Err(e) => return Err(e),
            };
            Ok(KiwiTool::FileRead { path })
        } else if str_eq(name, "file.write") {
            assert(seq!["path"@, "content"@].drop_first() =~= seq!["content"@]);
            assert(seq!["content"@].drop_first() =~= Seq::<Seq<char>>::empty());
            let path = match required_text(input, "path") {
                Ok(v) => v,
                Err(e) => return Err(e),
            };
            let content = match required_text(input, "content") {
                Ok(v) => v,
                Err(e) => return Err(e),
            };
            Ok(KiwiTool::FileWrite { path, content })
        } else if str_eq(name, "file.patch") {
            assert(seq!["path"@, "old_str"@, "new_str"@].drop_first() =~= seq!["old_str"@, "new_str"@]);
            assert(seq!["old_str"@, "new_str"@].drop_first() =~= seq!["new_str"@]);
            assert(seq!["new_str"@].drop_first() =~= Seq::<Seq<char>>::empty());
            let path = match required_text(input, "path") {
                Ok(v) => v,
                Err(e) => return Err(e),
            };
            let old_str = match required_text(input, "old_str") {
                Ok(v) => v,
                Err(e) => return Err(e),
            };
            let new_str = match required_text(input, "new_str") {
                Ok(v) => v,
                Err(e) => return Err(e),
            };
            Ok(KiwiTool::FilePatch { path, old_str, new_str })
        } else if str_eq(name, "file.read_range") {
            let path = match required_text(input, "path") {
                Ok(v) => v,
                Err(e) => return Err(e),
            };
            let start = match input.u64_field("start_line") {
                Some(l) => l,
                None => return Err(missing_field_error("start_line")),
            };
            if start == 0 {
                return Err(ToolParseError(owned("'start_line' must be >= 1")));
            }
            let end_line = match input.u64_field("end_line") {
                Some(l) => if l == 0 {
                    None
                } else {
                    Some((l % 0x1_0000_0000) as u32)
                },
                None => None,
            };
            Ok(KiwiTool::FileReadRange { path, start_line: (start % 0x1_0000_0000) as u32, end_line })
        } else if str_eq(name, "file.delete") {
            let path = match required_text(input, "path") {
                Ok(v) => v,
                Err(e) => return Err(e),
            };
            Ok(KiwiTool::FileDelete { path })
        } else if str_eq(name, "file.move") {
            assert(seq!["src"@, "dest"@].drop_first() =~= seq!["dest"@]);
            assert(seq!["dest"@].drop_first() =~= Seq::<Seq<char>>::empty());
            let src = match required_text(input, "src") {
                Ok(v) => v,
                Err(e) => return Err(e),
            };
            let dest = match required_text(input, "dest") {
                Ok(v) => v,
                Err(e) => return Err(e),
            };
            Ok(KiwiTool::FileMove { src, dest })
        } else if str_eq(name, "file.list") {
            let path = match required_text(input, "path") {
                Ok(v) => v,
                Err(e) => return Err(e),
            };
            let d = match input.u64_field("depth") {
                Some(v) => v,
                None => 2,
            };
            let depth: u8 = if d > 5 { 5 } else { d as u8 };
            Ok(KiwiTool::FileList { path, depth })
        } else if str_eq(name, "shell.run") {
            let command = match required_text(input, "command") {
                Ok(v) => v,
                Err(e) => return Err(e),
            };
            Ok(KiwiTool::ShellRun { command })
        } else if str_eq(name, "shell.capture") {
            let command = match required_text(input, "command") {
                Ok(v) => v,
                Err(e) => return Err(e),
            };
            let t = match input.u64_field("timeout_secs") {
                Some(v) => v,
                None => 30,
            };
            Ok(KiwiTool::ShellCapture { command, timeout_secs: clamp_exec(t, 1, 120) as u32 })
        } else if str_eq(name, "git.status") {
            Ok(KiwiTool::GitStatus)
        } else if str_eq(name, "git.diff") {
            Ok(KiwiTool::GitDiff { path: input.opt_text_field("path") })
        } else if str_eq(name, "git.commit") {
            let message = match required_text(input, "message") {
                Ok(v) => v,
                Err(e) => return Err(e),
            };
            let stage_all = match input.bool_field("stage_all") {
                Some(b) => b,
                None => true,
            };
            Ok(KiwiTool::GitCommit { message, stage_all })
        } else if str_eq(name, "git.branch") {
            let action = match branch_action(input) {
                Ok(v) => v,
                Err(e) => return Err(e),
            };
            match action {
                GitBranchAction::List => Ok(KiwiTool::GitBranch { action, name: None }),
                _ => {
                    let branch = match input.str_field("name") {
                        Some(n) => n,
                        None => return Err(missing_field_error("name")),
                    };
                    if trim_chars(str_chars(branch.as_str()).as_slice()).len() == 0 {
                        return Err(ToolParseError(owned("branch name must not be empty")));
                    }
                    Ok(KiwiTool::GitBranch { action, name: Some(branch) })
                },
            }
        } else if str_eq(name, "cargo.check") {
            Ok(KiwiTool::CargoCheck { package: input.opt_text_field("package") })
        } else if str_eq(name, "cargo.build") {
            let release = match input.bool_field("release") {
                Some(b) => b,
                None => false,
            };
            Ok(KiwiTool::CargoBuild { package: input.opt_text_field("package"), release })
        } else if str_eq(name, "cargo.test") {
            let filter = input.opt_text_field("filter");
            let package = input.opt_text_field("package");
            Ok(KiwiTool::CargoTest { filter, package })
        } else if str_eq(name, "github.issues") {
            let l = match input.u64_field("limit") {
                Some(v) => v,
                None => 20,
            };
            let label = input.opt_text_field("label");
            let milestone = input.opt_text_field("milestone");
            Ok(KiwiTool::GitHubIssues { limit: clamp_exec(l, 1, 100) as u32, label, milestone })
        } else if str_eq(name, "github.prs") {
            let l = match input.u64_field("limit") {
                Some(v) => v,
                None => 20,
            };
            Ok(KiwiTool::GitHubPrs { limit: clamp_exec(l, 1, 100) as u32, base: input.opt_text_field("base") })
        } else if str_eq(name, "memory.search") {
            let query = match required_text(input, "query") {
                Ok(v) => v,
                Err(e) => return Err(e),
            };
            let l = match input.u64_field("limit") {
                Some(v) => v,
                None => 5,
            };
            Ok(KiwiTool::MemorySearch { query, limit: clamp_exec(l, 1, 20) as u32 })
        } else if str_eq(name, "project.context") {
            Ok(KiwiTool::ProjectContext)
        } else if str_eq(name, "file.search") {
            let query = match required_text(input, "query") {
                Ok(v) => v,
                Err(e) => return Err(e),
            };
            Ok(KiwiTool::FileSearch { query })
        } else if str_eq(name, "file.grep") {
            let query = match required_text(input, "query") {
                Ok(v) => v,
                Err(e) => return Err(e),
            };
            Ok(KiwiTool::FileGrep { query, path: input.opt_text_field("path") })
        } else {
            let mut m = owned("unknown tool '");
            push_str(&mut m, name);
            push_str(&mut m, "'");
            Err(ToolParseError(m))
        }
    }
}

/// A named set of tool ids exposed to a model for one kind of agent.
#[derive(Debug, Clone, PartialEq, Eq)]
pub struct ToolProfile {
    pub name: &'static str,
    pub allowed: Vec<&'static str>,
}

/// Tools exposed whatever the profile.
pub const MANDATORY_TOOL_ID: &'static str = "memory.search";

/// Most tool round trips per user message.
pub const MAX_TOOL_ROUNDS_PER_TURN: u8 = 8;

/// Names of the defined profiles, in order.
pub open spec fn profile_names() -> Seq<Seq<char>> {
    seq!["all"@, "coding"@, "code_review"@, "github"@, "planner"@]
}

/// Ids allowed by profile `p` (none listed for `all`, which allows every tool).
pub open spec fn profile_allowed(p: int) -> Seq<Seq<char>> {
    if p == 0 {
        seq![]
    } else if p == 1 {
        seq!["file.read"@, "file.read_range"@, "file.write"@, "file.patch"@, "file.list"@, "file.search"@, "file.grep"@, "file.delete"@, "file.move"@, "shell.run"@, "shell.capture"@, "git.status"@, "git.diff"@, "git.commit"@, "cargo.check"@, "cargo.build"@, "cargo.test"@]
    } else if p == 2 {
        seq!["file.read"@, "file.read_range"@, "file.list"@, "file.search"@, "file.grep"@, "git.diff"@, "cargo.check"@]
    } else if p == 3 {
        seq!["git.status"@, "git.branch"@, "git.commit"@, "github.issues"@, "github.prs"@]
    } else if p == 4 {
        seq!["project.context"@, "memory.search"@, "file.search"@, "file.grep"@, "file.read"@]
    } else {
        Seq::empty()
    }
}

/// Profile `x` is the defined profile `p`.
pub open spec fn profile_matches(x: ToolProfile, p: int) -> bool {
    &&& x.name@ == profile_names()[p]
    &&& x.allowed@.len() == profile_allowed(p).len()
    &&& forall|k: int| 0 <= k < x.allowed@.len() ==> #[trigger] x.allowed@[k]@ == profile_allowed(p)[k]
}

impl ToolProfile {
    /// Every defined profile.
    pub fn all_profiles() -> (r: Vec<ToolProfile>)
        ensures
            r@.len() == 5,
            forall|p: int| 0 <= p < 5 ==> profile_matches(#[trigger] r@[p], p),
    {
        let mut out: Vec<ToolProfile> = Vec::new();
        out.push(ToolProfile { name: "all", allowed: Vec::new() });
        out.push(ToolProfile { name: "coding", allowed: vec!["file.read", "file.read_range", "file.write", "file.patch", "file.list", "file.search", "file.grep", "file.delete", "file.move", "shell.run", "shell.capture", "git.status", "git.diff", "git.commit", "cargo.check", "cargo.build", "cargo.test"] });
        out.push(ToolProfile { name: "code_review", allowed: vec!["file.read", "file.read_range", "file.list", "file.search", "file.grep", "git.diff", "cargo.check"] });
        out.push(ToolProfile { name: "github", allowed: vec!["git.status", "git.branch", "git.commit", "github.issues", "github.prs"] });
        out.push(ToolProfile { name: "planner", allowed: vec!["project.context", "memory.search", "file.search", "file.grep", "file.read"] });
        out
    }
}

/// Position of the profile named `name`.
pub open spec fn profile_index(name: Seq<char>) -> Option<int> {
    if exists|p: int| 0 <= p < 5 && profile_names()[p] == name {
        Some(choose|p: int| 0 <= p < 5 && profile_names()[p] == name)
    } else {
        None
    }
}

proof fn lemma_profile_names_distinct()
    ensures
        forall|a: int, b: int| 0 <= a < 5 && 0 <= b < 5 && a != b ==> profile_names()[a] != profile_names()[b],
{
    reveal_strlit("all");
    reveal_strlit("coding");
    reveal_strlit("code_review");
    reveal_strlit("github");
    reveal_strlit("planner");
    assert("coding"@[0] != "github"@[0]);
    let n = profile_names();
    assert(n[0] == "all"@ && n[1] == "coding"@ && n[2] == "code_review"@ && n[3] == "github"@ && n[4] == "planner"@);
    assert forall|a: int, b: int| 0 <= a < 5 && 0 <= b < 5 && a != b implies n[a] != n[b] by {
        if n[a] == n[b] {
            assert(n[a].len() == n[b].len());
            if (a == 1 && b == 3) || (a == 3 && b == 1) {
                assert(n[a][0] != n[b][0]);
            }
        }
    }
}

/// The profile named `name`.
pub fn tool_profile_by_name(name: &str) -> (r: Option<ToolProfile>)
    ensures
        match r {
            Some(x) => profile_index(name@) matches Some(p) && profile_matches(x, p),
            None => profile_index(name@) is None,
        },
{
    let all = ToolProfile::all_profiles();
    proof {
        lemma_profile_names_distinct();
    }
    let mut i: usize = 0;
    while i < all.len()
        invariant
            i <= 5,
            all@.len() == 5,
            forall|p: int| 0 <= p < 5 ==> profile_matches(#[trigger] all@[p], p),
            forall|p: int| 0 <= p < i ==> profile_names()[p] != name@,
        decreases 5 - i,
    {
        if str_eq(all[i].name, name) {
            let mut all = all;
            let x = all.remove(i);
            proof {
                assert(profile_matches(x, i as int));
                lemma_profile_names_distinct();
                let w = choose|p: int| 0 <= p < 5 && profile_names()[p] == name@;
                assert(w == i);
            }
            return Some(x);
        }
        i = i + 1;
    }
    None
}

/// The provider's profile when it names one, else the agent's.
pub fn resolve_tool_profile<'a>(agent_profile: &'a str, provider_profile: Option<&'a str>) -> (r: &'a str)
    ensures
        r == match provider_profile {
            Some(p) => p,
            None => agent_profile,
        },
{
    match provider_profile {
        Some(p) => p,
        None => agent_profile,
    }
}

/// Wire name of a registry id: dots become underscores.
pub open spec fn spec_openai_tool_name(id: Seq<char>) -> Seq<char> {
    id.map_values(|c: char| if c == '.' { '_' } else { c })
}

pub fn openai_tool_name(kiwi_id: &str) -> (r: String)
    ensures
        r@ == spec_openai_tool_name(kiwi_id@),
{
    let v = str_chars(kiwi_id);
    let mut out: Vec<char> = Vec::new();
    let mut i: usize = 0;
    while i < v.len()
        invariant
            i <= v@.len(),
            v@ == kiwi_id@,
            out@ == spec_openai_tool_name(kiwi_id@).take(i as int),
        decreases v.len() - i,
    {
        let c = v[i];
        out.push(if c == '.' { '_' } else { c });
        i = i + 1;
        assert(out@ =~= spec_openai_tool_name(kiwi_id@).take(i as int));
    }
    assert(spec_openai_tool_name(kiwi_id@).take(i as int) =~= spec_openai_tool_name(kiwi_id@));
    string_from_chars(out.as_slice())
}

/// Position of the first registered tool whose wire name or id is `wire`.
pub open spec fn wire_tool_index(wire: Seq<char>) -> Option<int> {
    if exists|i: int| 0 <= i < 22 && (spec_openai_tool_name(tool_ids()[i]) == wire || tool_ids()[i] == wire)
        && forall|j: int| 0 <= j < i ==> !(spec_openai_tool_name(tool_ids()[j]) == wire || tool_ids()[j] == wire) {
        Some(choose|i: int| 0 <= i < 22 && (spec_openai_tool_name(tool_ids()[i]) == wire || tool_ids()[i] == wire)
            && forall|j: int| 0 <= j < i ==> !(spec_openai_tool_name(tool_ids()[j]) == wire || tool_ids()[j] == wire))
    } else {
        None
    }
}

/// The registry id that a wire name (or a dotted id) stands for.
pub fn kiwi_tool_id_from_openai(wire_name: &str) -> (r: Option<&'static str>)
    ensures
        match r {
            Some(id) => wire_tool_index(wire_name@) matches Some(i) && id@ == tool_ids()[i],
            None => wire_tool_index(wire_name@) is None,
        },
{
    let all = ToolRegistry::all();
    let mut i: usize = 0;
    while i < all.len()
        invariant
            i <= 22,
            all@.len() == 22,
            forall|k: int| 0 <= k < 22 ==> def_matches(#[trigger] all@[k], k),
            forall|j: int| 0 <= j < i ==> !(spec_openai_tool_name(tool_ids()[j]) == wire_name@ || tool_ids()[j]
                == wire_name@),
        decreases 22 - i,
    {
        let id = all[i].id;
        assert(def_matches(all@[i as int], i as int));
        let wire = openai_tool_name(id);
        if str_eq(wire.as_str(), wire_name) || str_eq(id, wire_name) {
            proof {
                let w = choose|w: int| 0 <= w < 22 && (spec_openai_tool_name(tool_ids()[w]) == wire_name@
                    || tool_ids()[w] == wire_name@) && forall|j: int| 0 <= j < w ==> !(spec_openai_tool_name(
                    tool_ids()[j],
                ) == wire_name@ || tool_ids()[j] == wire_name@);
                if w < i {
                } else if w > i {
                    assert(!(spec_openai_tool_name(tool_ids()[i as int]) == wire_name@ || tool_ids()[i as int]
                        == wire_name@));
                }
            }
            return Some(id);
        }
        i = i + 1;
    }
    None
}

/// Part of an Ollama model name before the first `:`, lower-cased.
pub open spec fn model_base(model: Seq<char>) -> Seq<char> {
    ascii_lower(split_pieces(model, ':')[0])
}

fn model_base_exec(model: &str) -> (r: String)
    ensures
        r@ == model_base(model@),
{
    let v = str_chars(model);
    let pieces = split_chars(v.as_slice(), ':');
    proof {
        lemma_split_pieces_len(model@, ':');
    }
    let first = string_from_chars(pieces[0].as_slice());
    to_ascii_lowercase(first.as_str())
}

/// Ollama models that return structured tool calls.
pub open spec fn spec_ollama_native(model: Seq<char>) -> bool {
    let b = model_base(model);
    is_prefix("llama3"@, b) || is_prefix("mistral"@, b) || is_prefix("mixtral"@, b) || is_prefix("gpt-oss"@, b)
}

pub fn ollama_uses_native_tool_calls(model: &str) -> (r: bool)
    ensures
        r == spec_ollama_native(model@),
{
    let base = model_base_exec(model);
    let b = str_chars(base.as_str());
    crate::text::chars_starts_with(b.as_slice(), str_chars("llama3").as_slice())
        || crate::text::chars_starts_with(b.as_slice(), str_chars("mistral").as_slice())
        || crate::text::chars_starts_with(b.as_slice(), str_chars("mixtral").as_slice())
        || crate::text::chars_starts_with(b.as_slice(), str_chars("gpt-oss").as_slice())
}

/// Ollama models known to call tools: the native ones and `qwen2.5-coder`.
pub open spec fn spec_ollama_supports_tools(model: Seq<char>) -> bool {
    spec_ollama_native(model) || is_prefix("qwen2.5-coder"@, model_base(model))
}

pub fn ollama_supports_tools(model: &str) -> (r: bool)
    ensures
        r == spec_ollama_supports_tools(model@),
{
    if ollama_uses_native_tool_calls(model) {
        return true;
    }
    let base = model_base_exec(model);
    let b = str_chars(base.as_str());
    crate::text::chars_starts_with(b.as_slice(), str_chars("qwen2.5-coder").as_slice())
}

/// Tool `i` is exposed by profile `p`: every tool for `all`, otherwise the
/// listed ones and the mandatory one.
pub open spec fn exposed(p: int, i: int) -> bool {
    p == 0 || profile_allowed(p).contains(tool_ids()[i]) || tool_ids()[i] == MANDATORY_TOOL_ID@
}

/// Ids of the first `n` registered tools that profile `p` exposes, in
/// registry order.
pub open spec fn exposed_ids(p: int, n: int) -> Seq<Seq<char>>
    decreases n,
{
    if n <= 0 {
        Seq::empty()
    } else if exposed(p, n - 1) {
        exposed_ids(p, n - 1).push(tool_ids()[n - 1])
    } else {
        exposed_ids(p, n - 1)
    }
}

/// Registry indices of the first `n` registered tools that profile `p`
/// exposes, in registry order.
pub open spec fn exposed_indices(p: int, n: int) -> Seq<int>
    decreases n,
{
    if n <= 0 {
        Seq::empty()
    } else if exposed(p, n - 1) {
        exposed_indices(p, n - 1).push(n - 1)
    } else {
        exposed_indices(p, n - 1)
    }
}

/// Registry indices of every tool but `shell.run`.
pub open spec fn not_shell_run_index() -> spec_fn(int) -> bool {
    |i: int| tool_ids()[i] != "shell.run"@
}

/// Ids of tool definitions, in order.
pub open spec fn def_ids(s: Seq<KiwiToolDef>) -> Seq<Seq<char>> {
    s.map_values(|d: KiwiToolDef| d.id@)
}

/// Every tool but `shell.run`.
pub open spec fn not_shell_run() -> spec_fn(Seq<char>) -> bool {
    |id: Seq<char>| id != "shell.run"@
}

/// Profile used for a name: the named one, or `all` for an unknown name.
pub open spec fn effective_profile(name: Seq<char>) -> int {
    match profile_index(name) {
        Some(p) => p,
        None => 0,
    }
}

fn contains_id(ids: &Vec<&'static str>, id: &str) -> (r: bool)
    ensures
        r == ids@.map_values(|s: &'static str| s@).contains(id@),
{
    let ghost v = ids@.map_values(|s: &'static str| s@);
    let mut i: usize = 0;
    while i < ids.len()
        invariant
            i <= ids@.len(),
            v == ids@.map_values(|s: &'static str| s@),
            forall|k: int| 0 <= k < i ==> v[k] != id@,
        decreases ids.len() - i,
    {
        if str_eq(ids[i], id) {
            assert(v[i as int] == id@);
            return true;
        }
        i = i + 1;
    }
    false
}

impl ToolRegistry {
    /// The registered tools a profile exposes, in registry order (an
    /// unknown profile exposes all of them).
    pub fn for_profile(profile_name: &str) -> (r: Vec<KiwiToolDef>)
        ensures
            r@.len() == exposed_ids(effective_profile(profile_name@), 22).len(),
            forall|k: int| 0 <= k < r@.len() ==> #[trigger] r@[k].id@ == exposed_ids(
                effective_profile(profile_name@),
                22,
            )[k],
            r@.len() == exposed_indices(effective_profile(profile_name@), 22).len(),
            forall|k: int|
                0 <= k < r@.len() ==> def_matches(
                    #[trigger] r@[k],
                    exposed_indices(effective_profile(profile_name@), 22)[k],
                ),
    {
        let ghost p = effective_profile(profile_name@);
        let profile = match tool_profile_by_name(profile_name) {
            Some(x) => x,
            None => {
                let mut all = ToolProfile::all_profiles();
                all.remove(0)
            },
        };
        proof {
            lemma_profile_names_distinct();
            reveal_strlit("all");
        }
        let is_all = str_eq(profile.name, "all");
        assert(is_all == (p == 0));
        let allowed = &profile.allowed;
        assert(allowed@.map_values(|s: &'static str| s@) =~= profile_allowed(p));
        let mut tools = ToolRegistry::all();
        let mut out: Vec<KiwiToolDef> = Vec::new();
        let mut i: usize = 0;
        while tools.len() > 0
            invariant
                i + tools@.len() == 22,
                forall|k: int| 0 <= k < tools@.len() ==> def_matches(#[trigger] tools@[k], k + i),
                allowed@.map_values(|s: &'static str| s@) == profile_allowed(p),
                is_all == (p == 0),
                out@.len() == exposed_ids(p, i as int).len(),
                forall|k: int| 0 <= k < out@.len() ==> #[trigger] out@[k].id@ == exposed_ids(p, i as int)[k],
                out@.len() == exposed_indices(p, i as int).len(),
                forall|k: int| 0 <= k < out@.len() ==> def_matches(#[trigger] out@[k], exposed_indices(p, i as int)[k]),
            decreases tools@.len(),
        {
            let ghost before = tools@;
            let d = tools.remove(0);
            assert(def_matches(before[0], i as int));
            assert forall|k: int| 0 <= k < tools@.len() implies def_matches(#[trigger] tools@[k], k + i + 1) by {
                assert(tools@[k] == before[k + 1]);
            }
            let keep = is_all || contains_id(allowed, d.id) || str_eq(d.id, MANDATORY_TOOL_ID);
            if keep {
                out.push(d);
            }
            i = i + 1;
        }
        out
    }

    /// The tools offered to Ollama models: those of the profile but
    /// `shell.run`, whose output the model cannot read.
    pub fn for_ollama(profile_name: &str) -> (r: Vec<KiwiToolDef>)
        ensures
            def_ids(r@) == exposed_ids(effective_profile(profile_name@), 22).filter(not_shell_run()),
            r@.len() == exposed_indices(effective_profile(profile_name@), 22).filter(not_shell_run_index()).len(),
            forall|k: int|
                0 <= k < r@.len() ==> def_matches(
                    #[trigger] r@[k],
                    exposed_indices(effective_profile(profile_name@), 22).filter(not_shell_run_index())[k],
                ),
    {
        let mut tools = ToolRegistry::for_profile(profile_name);
        let ghost ids = exposed_ids(effective_profile(profile_name@), 22);
        let ghost idx = exposed_indices(effective_profile(profile_name@), 22);
        assert(def_ids(tools@) =~= ids);
        let mut out: Vec<KiwiToolDef> = Vec::new();
        let ghost total = tools@.len();
        assert(total == tools.len());
        let mut i: usize = 0;
        while tools.len() > 0
            invariant
                i + tools@.len() == total,
                total <= usize::MAX,
                total == ids.len(),
                forall|k: int| 0 <= k < tools@.len() ==> #[trigger] tools@[k].id@ == ids[k + i],
                def_ids(out@) == ids.take(i as int).filter(not_shell_run()),
                total == idx.len(),
                forall|k: int| 0 <= k < tools@.len() ==> def_matches(#[trigger] tools@[k], idx[k + i]),
                out@.len() == idx.take(i as int).filter(not_shell_run_index()).len(),
                forall|k: int|
                    0 <= k < out@.len() ==> def_matches(#[trigger] out@[k], idx.take(i as int).filter(not_shell_run_index())[k]),
            decreases tools@.len(),
        {
            let ghost before = tools@;
            let d = tools.remove(0);
            assert(d.id@ == ids[i as int]);
            assert forall|k: int| 0 <= k < tools@.len() implies #[trigger] tools@[k].id@ == ids[k + i + 1] by {
                assert(tools@[k] == before[k + 1]);
            }
            assert(def_matches(before[0], idx[i as int]));
            assert forall|k: int| 0 <= k < tools@.len() implies def_matches(#[trigger] tools@[k], idx[k + i + 1]) by {
                assert(tools@[k] == before[k + 1]);
            }
            let ghost prev_out = out@;
            let ghost prev_f = idx.take(i as int).filter(not_shell_run_index());
            proof {
                assert(idx.take(i + 1) =~= idx.take(i as int).push(idx[i as int]));
                idx.take(i as int).lemma_filter_push(idx[i as int], not_shell_run_index());
            }
            assert(ids.take(i + 1).drop_last() =~= ids.take(i as int));
            assert(ids.take(i + 1).last() == ids[i as int]);
            let ghost prev = def_ids(out@);
            proof {
                assert(ids.take(i + 1) =~= ids.take(i as int).push(ids[i as int]));
                ids.take(i as int).lemma_filter_push(ids[i as int], not_shell_run());
            }
            if !str_eq(d.id, "shell.run") {
                out.push(d);
                assert(def_ids(out@) =~= prev.push(ids[i as int]));
                assert(forall|k: int| 0 <= k < prev_out.len() ==> out@[k] == prev_out[k]);
            }
            i = i + 1;
        }
        assert(ids.take(i as int) =~= ids);
        assert(idx.take(i as int) =~= idx);
        out
    }
}

/// Position of the `}` closing the brace group scanned from `j` with
/// `depth` groups open (nested braces counted, nothing else recognised).
pub open spec fn close_from(s: Seq<char>, j: int, depth: nat) -> Option<int>
    decreases s.len() - j,
{
    if j < 0 || j >= s.len() {
        None
    } else if s[j] == '{' {
        close_from(s, j + 1, depth + 1)
    } else if s[j] == '}' {
        let d: nat = if depth > 0 { (depth - 1) as nat } else { 0 };
        if d == 0 {
            Some(j)
        } else {
            close_from(s, j + 1, d)
        }
    } else {
        close_from(s, j + 1, depth)
    }
}

/// Brace-balanced pieces of `s` from position `i`: each `{` starts one
/// that ends at its closing `}`, and scanning goes on after it; an
/// unclosed `{` ends the scan.
pub open spec fn object_spans(s: Seq<char>, i: int) -> Seq<Seq<char>>
    decreases s.len() - i,
{
    if i < 0 || i >= s.len() {
        Seq::empty()
    } else if s[i] != '{' {
        object_spans(s, i + 1)
    } else {
        match close_from(s, i, 0) {
            Some(e) => if i <= e < s.len() {
                seq![s.subrange(i, e + 1)] + object_spans(s, e + 1)
            } else {
                Seq::empty()
            },
            None => Seq::empty(),
        }
    }
}

proof fn lemma_close_from_after(s: Seq<char>, j: int, depth: nat)
    ensures
        close_from(s, j, depth) matches Some(e) ==> j <= e < s.len(),
    decreases s.len() - j,
{
    if 0 <= j < s.len() {
        if s[j] == '{' {
            lemma_close_from_after(s, j + 1, depth + 1);
        } else if s[j] == '}' {
            let d: nat = if depth > 0 { (depth - 1) as nat } else { 0 };
            if d != 0 {
                lemma_close_from_after(s, j + 1, d);
            }
        } else {
            lemma_close_from_after(s, j + 1, depth);
        }
    }
}

fn close_index(v: &Vec<char>, i: usize) -> (r: Option<usize>)
    ensures
        match r {
            Some(e) => close_from(v@, i as int, 0) == Some(e as int),
            None => close_from(v@, i as int, 0) is None,
        },
{
    let mut depth: usize = 0;
    let mut j: usize = i;
    while j < v.len()
        invariant
            i <= j || j >= v@.len(),
            depth <= j - i || j >= v@.len(),
            close_from(v@, i as int, 0) == close_from(v@, j as int, depth as nat),
        decreases v.len() - j,
    {
        let c = v[j];
        if c == '{' {
            depth = depth + 1;
        } else if c == '}' {
            depth = if depth > 0 { depth - 1 } else { 0 };
            if depth == 0 {
                return Some(j);
            }
        }
        j = j + 1;
    }
    None
}

/// A member value that survives normalisation: neither null nor a blank string.
pub open spec fn kept_value(v: JsonValue) -> bool {
    !(v is Null) && !(v matches JsonValue::String(t) && trim(t@).len() == 0)
}

/// Positions of the members whose values are kept, in order.
pub open spec fn kept_positions(ms: Seq<JsonMember>) -> Seq<int>
    decreases ms.len(),
{
    if ms.len() == 0 {
        Seq::empty()
    } else if kept_value(ms.last().value) {
        kept_positions(ms.drop_last()).push(ms.len() - 1)
    } else {
        kept_positions(ms.drop_last())
    }
}

/// `out` is `inp` with null and blank-string members dropped from every
/// object, at every depth; arrays keep all their items.
pub open spec fn normalized(inp: JsonValue, out: JsonValue) -> bool
    decreases inp,
{
    match inp {
        JsonValue::Object(ms) => {
            let pos = kept_positions(ms@);
            &&& out is Object
            &&& out->Object_0@.len() == pos.len()
            &&& forall|k: int|
                #![trigger out->Object_0@[k]]
                0 <= k < pos.len() ==> 0 <= pos[k] < ms@.len() && out->Object_0@[k].key@ == ms@[pos[k]].key@
                    && normalized(ms@[pos[k]].value, out->Object_0@[k].value)
        },
        JsonValue::Array(xs) => {
            &&& out is Array
            &&& out->Array_0@.len() == xs@.len()
            &&& forall|k: int|
                #![trigger out->Array_0@[k]]
                0 <= k < xs@.len() ==> normalized(xs@[k], out->Array_0@[k])
        },
        _ => out == inp,
    }
}

fn is_kept(v: &JsonValue) -> (r: bool)
    ensures
        r == kept_value(*v),
{
    match v {
        JsonValue::Null => false,
        JsonValue::String(t) => trim_chars(str_chars(t.as_str()).as_slice()).len() > 0,
        _ => true,
    }
}

/// Tool arguments with null and blank optional fields taken out, so that
/// they read as absent (some models send `"package": null`).
pub fn normalize_tool_arguments(input: JsonValue) -> (r: JsonValue)
    ensures
        normalized(input, r),
    decreases input,
{
    let ghost orig = input;
    match input {
        JsonValue::Object(members) => {
            let ghost ms = members@;
            let mut rest = members;
            let mut out: Vec<JsonMember> = Vec::new();
            let total = rest.len();
            let mut i: usize = 0;
            assert(rest@ =~= ms.skip(0));
            assert(ms.take(0) =~= Seq::<JsonMember>::empty());
            while rest.len() > 0
                invariant
                    i + rest@.len() == ms.len(),
                    ms.len() == total,
                    rest@ == ms.skip(i as int),
                    orig == input,
                    orig == JsonValue::Object(orig->Object_0),
                    orig->Object_0@ == ms,
                    out@.len() == kept_positions(ms.take(i as int)).len(),
                    forall|k: int|
                        #![trigger out@[k]]
                        0 <= k < out@.len() ==> 0 <= kept_positions(ms.take(i as int))[k] < i && out@[k].key@
                            == ms[kept_positions(ms.take(i as int))[k]].key@ && normalized(
                            ms[kept_positions(ms.take(i as int))[k]].value,
                            out@[k].value,
                        ),
                decreases rest@.len(),
            {
                let m = rest.remove(0);
                assert(m == ms[i as int]);
                assert(rest@ =~= ms.skip(i + 1));
                assert(ms.take(i + 1).drop_last() =~= ms.take(i as int));
                assert(ms.take(i + 1).last() == ms[i as int]);
                let ghost before = out@;
                if is_kept(&m.value) {
                    assert(decreases_to!(orig => orig->Object_0));
                    assert(decreases_to!(orig->Object_0 => ms));
                    assert(decreases_to!(ms => ms[i as int]));
                    assert(decreases_to!(ms[i as int] => ms[i as int].value));
                    let JsonMember { key, value } = m;
                    let v = normalize_tool_arguments(value);
                    out.push(JsonMember { key, value: v });
                    assert(kept_positions(ms.take(i + 1)) == kept_positions(ms.take(i as int)).push(i as int));
                    assert forall|k: int|
                        #![trigger out@[k]]
                        0 <= k < out@.len() implies 0 <= kept_positions(ms.take(i + 1))[k] < i + 1 && out@[k].key@
                            == ms[kept_positions(ms.take(i + 1))[k]].key@ && normalized(
                            ms[kept_positions(ms.take(i + 1))[k]].value,
                            out@[k].value,
                        ) by {
                        if k < before.len() {
                            assert(out@[k] == before[k]);
                        }
                    }
                }
                i = i + 1;
            }
            assert(ms.take(i as int) =~= ms);
            JsonValue::Object(out)
        },
        JsonValue::Array(items) => {
            let ghost xs = items@;
            let mut rest = items;
            let mut out: Vec<JsonValue> = Vec::new();
            let total = rest.len();
            let mut i: usize = 0;
            assert(rest@ =~= xs.skip(0));
            while rest.len() > 0
                invariant
                    i + rest@.len() == xs.len(),
                    xs.len() == total,
                    rest@ == xs.skip(i as int),
                    orig == input,
                    orig == JsonValue::Array(orig->Array_0),
                    orig->Array_0@ == xs,
                    out@.len() == i,
                    forall|k: int| #![trigger out@[k]] 0 <= k < i ==> normalized(xs[k], out@[k]),
                decreases rest@.len(),
            {
                let x = rest.remove(0);
                assert(x == xs[i as int]);
                assert(rest@ =~= xs.skip(i + 1));
                assert(decreases_to!(orig => orig->Array_0));
                assert(decreases_to!(orig->Array_0 => xs));
                assert(decreases_to!(xs => xs[i as int]));
                let v = normalize_tool_arguments(x);
                out.push(v);
                i = i + 1;
            }
            JsonValue::Array(out)
        },
        other => other,
    }
}

/// Tool argument JSON with null and blank fields dropped and written back
/// as compact JSON; the text as it came when it is not JSON, or when the
/// result cannot be written.
pub fn normalize_tool_arguments_json(raw: &str) -> (r: String)
    ensures
        match json_text_value(raw@) {
            None => r@ == raw@,
            Some(v) => exists|out: JsonValue|
                normalized(v, out) && r@ == match json_value_text(out) {
                    Some(t) => t,
                    None => raw@,
                },
        },
{
    match parse_json_text(raw) {
        None => owned(raw),
        Some(v) => {
            let out = normalize_tool_arguments(v);
            match json_text(&out) {
                Some(t) => t,
                None => owned(raw),
            }
        },
    }
}

/// Pieces of `text` that may each hold one JSON object.
pub fn json_object_candidates(text: &str) -> (r: Vec<String>)
    ensures
        crate::text::string_views(r@) == object_spans(text@, 0),
{
    let v = str_chars(text);
    let mut out: Vec<String> = Vec::new();
    let mut i: usize = 0;
    let mut done = false;
    while i < v.len() && !done
        invariant
            v@ == text@,
            i <= v@.len(),
            done ==> crate::text::string_views(out@) == object_spans(text@, 0),
            !done ==> crate::text::string_views(out@) + object_spans(text@, i as int) == object_spans(text@, 0),
        decreases v.len() - i + (if done { 0int } else { 1int }),
    {
        if v[i] != '{' {
            i = i + 1;
        } else {
            match close_index(&v, i) {
                Some(e) => {
                    proof {
                        lemma_close_from_after(v@, i as int, 0);
                    }
                    let piece = string_from_chars(crate::text::slice_sub(v.as_slice(), i, e + 1).as_slice());
                    let ghost before = crate::text::string_views(out@);
                    crate::text::push_line(&mut out, piece);
                    assert(crate::text::string_views(out@) + object_spans(text@, e + 1) =~= before + object_spans(
                        text@,
                        i as int,
                    ));
                    i = e + 1;
                },
                None => {
                    assert(crate::text::string_views(out@) =~= crate::text::string_views(out@) + object_spans(
                        text@,
                        i as int,
                    ));
                    done = true;
                },
            }
        }
    }
    if !done {
        assert(crate::text::string_views(out@) =~= crate::text::string_views(out@) + object_spans(text@, i as int));
    }
    out
}

/// A tool call that a model wrote into its reply text.
#[derive(Debug, PartialEq, Eq)]
pub struct OllamaContentToolCall {
    pub wire_name: String,
    pub arguments: JsonValue,
}

/// The trimmed, non-blank `name` of a value that reads as a tool call.
pub open spec fn spec_call_name(v: JsonValue) -> Option<Seq<char>> {
    match json_str(json_get(v, "name"@)) {
        Some(n) => if trim(n).len() > 0 {
            Some(trim(n))
        } else {
            None
        },
        None => None,
    }
}

/// The call a value reads as: its name, and its `arguments` (else its
/// `parameters`, else an empty object).
pub open spec fn call_of(v: JsonValue, c: OllamaContentToolCall) -> bool {
    &&& spec_call_name(v) == Some(c.wire_name@)
    &&& match (json_get(v, "arguments"@), json_get(v, "parameters"@)) {
        (Some(a), _) => c.arguments == a,
        (None, Some(p)) => c.arguments == p,
        (None, None) => c.arguments matches JsonValue::Object(ms) && ms@.len() == 0,
    }
}

/// The values among `vs` that read as tool calls, in order.
pub open spec fn named_values(vs: Seq<JsonValue>) -> Seq<JsonValue>
    decreases vs.len(),
{
    if vs.len() == 0 {
        Seq::empty()
    } else if spec_call_name(vs.last()) is Some {
        named_values(vs.drop_last()).push(vs.last())
    } else {
        named_values(vs.drop_last())
    }
}

/// The calls `r` are those the values `vs` read as, in order.
pub open spec fn calls_of(vs: Seq<JsonValue>, r: Seq<OllamaContentToolCall>) -> bool {
    let named = named_values(vs);
    r.len() == named.len() && forall|k: int| 0 <= k < r.len() ==> call_of(named[k], #[trigger] r[k])
}

fn call_name(v: &JsonValue) -> (r: Option<String>)
    ensures
        match r {
            Some(n) => spec_call_name(*v) == Some(n@),
            None => spec_call_name(*v) is None,
        },
{
    match v.str_field("name") {
        Some(n) => {
            let t = trim_chars(str_chars(n.as_str()).as_slice());
            if t.len() > 0 {
                Some(string_from_chars(t.as_slice()))
            } else {
                None
            }
        },
        None => None,
    }
}

/// The call that a value naming a tool reads as.
fn into_call(v: JsonValue, name: String) -> (r: OllamaContentToolCall)
    requires
        spec_call_name(v) == Some(name@),
    ensures
        call_of(v, r),
{
    match v {
        JsonValue::Object(members) => {
            let mut members = members;
            let arguments = match take_member(&mut members, "arguments") {
                Some(a) => a,
                None => match take_member(&mut members, "parameters") {
                    Some(p) => p,
                    None => JsonValue::Object(Vec::new()),
                },
            };
            OllamaContentToolCall { wire_name: name, arguments }
        },
        _ => {
            assert(false);
            OllamaContentToolCall { wire_name: name, arguments: JsonValue::Null }
        },
    }
}

fn calls_from_values(values: Vec<JsonValue>) -> (r: Vec<OllamaContentToolCall>)
    ensures
        calls_of(values@, r@),
{
    let ghost vs = values@;
    let mut rest = values;
    let mut out: Vec<OllamaContentToolCall> = Vec::new();
    let ghost total = vs.len();
    let mut i: usize = 0;
    assert(rest.len() == total);
    while rest.len() > 0
        invariant
            i + rest@.len() == vs.len(),
            vs.len() <= usize::MAX,
            rest@ == vs.skip(i as int),
            calls_of(vs.take(i as int), out@),
        decreases rest@.len(),
    {
        let v = rest.remove(0);
        assert(v == vs[i as int]);
        assert(rest@ =~= vs.skip(i + 1));
        assert(vs.take(i + 1).drop_last() =~= vs.take(i as int));
        assert(vs.take(i + 1).last() == vs[i as int]);
        match call_name(&v) {
            Some(n) => {
                let c = into_call(v, n);
                out.push(c);
            },
            None => {},
        }
        i = i + 1;
    }
    assert(vs.take(i as int) =~= vs);
    out
}

/// The calls `r` that a reply holds: the whole reply read as one call, or
/// as an array of calls; otherwise each piece that reads as a call.
/// `whole` is the reply read as JSON, if it is, and `pieces` are the
/// candidate pieces that read as JSON.
pub open spec fn reply_calls(whole: Option<JsonValue>, pieces: Seq<JsonValue>, r: Seq<OllamaContentToolCall>) -> bool {
    match whole {
        Some(v) => if spec_call_name(v) is Some {
            r.len() == 1 && call_of(v, r[0])
        } else if v is Array {
            calls_of(v->Array_0@, r)
        } else {
            calls_of(pieces, r)
        },
        None => calls_of(pieces, r),
    }
}

/// Tool calls in a model's reply, from the reply read as JSON (`whole`,
/// if it is JSON) and the candidate pieces that read as JSON.
pub fn ollama_tool_calls_in(whole: Option<JsonValue>, pieces: Vec<JsonValue>) -> (r: Vec<OllamaContentToolCall>)
    ensures
        reply_calls(whole, pieces@, r@),
{
    match whole {
        Some(v) => {
            match call_name(&v) {
                Some(n) => {
                    let c = into_call(v, n);
                    let mut out: Vec<OllamaContentToolCall> = Vec::new();
                    out.push(c);
                    return out;
                },
                None => {},
            }
            match v {
                JsonValue::Array(items) => calls_from_values(items),
                _ => calls_from_values(pieces),
            }
        },
        None => calls_from_values(pieces),
    }
}

/// The texts among `texts` that read as JSON, read, in order.
pub open spec fn parsed_values(texts: Seq<Seq<char>>) -> Seq<JsonValue>
    decreases texts.len(),
{
    if texts.len() == 0 {
        Seq::empty()
    } else {
        match json_text_value(texts.last()) {
            Some(v) => parsed_values(texts.drop_last()).push(v),
            None => parsed_values(texts.drop_last()),
        }
    }
}

/// The candidate pieces of `text` that read as JSON, read.
fn parsed_pieces(text: &str) -> (r: Vec<JsonValue>)
    ensures
        r@ == parsed_values(object_spans(text@, 0)),
{
    let cands = json_object_candidates(text);
    let ghost spans = object_spans(text@, 0);
    let mut out: Vec<JsonValue> = Vec::new();
    let mut i: usize = 0;
    while i < cands.len()
        invariant
            i <= cands@.len(),
            crate::text::string_views(cands@) == spans,
            out@ == parsed_values(spans.take(i as int)),
        decreases cands@.len() - i,
    {
        assert(spans[i as int] == cands@[i as int]@);
        assert(spans.take(i + 1).drop_last() =~= spans.take(i as int));
        match parse_json_text(cands[i].as_str()) {
            Some(v) => out.push(v),
            None => {},
        }
        i = i + 1;
    }
    assert(spans.take(i as int) =~= spans);
    out
}

/// Tool calls that a model wrote as JSON in its reply text (common with
/// some Ollama models): none for a blank reply; else the trimmed reply read
/// as one call or as an array of calls, or failing that each brace-balanced
/// piece of it that reads as a call.
pub fn parse_ollama_content_tool_calls(content: &str) -> (r: Vec<OllamaContentToolCall>)
    ensures
        trim(content@).len() == 0 ==> r@.len() == 0,
        trim(content@).len() > 0 ==> reply_calls(
            json_text_value(trim(content@)),
            parsed_values(object_spans(trim(content@), 0)),
            r@,
        ),
{
    let tc = trim_chars(str_chars(content).as_slice());
    if tc.len() == 0 {
        return Vec::new();
    }
    let t = string_from_chars(tc.as_slice());
    let whole = parse_json_text(t.as_str());
    let pieces = parsed_pieces(t.as_str());
    ollama_tool_calls_in(whole, pieces)
}

/// How many calls a reply holds: the whole reply as one call, as an array
/// of calls, or else the pieces that read as calls.
pub open spec fn reply_call_count(whole: Option<JsonValue>, pieces: Seq<JsonValue>) -> nat {
    match whole {
        Some(v) => if spec_call_name(v) is Some {
            1
        } else if v is Array {
            named_values(v->Array_0@).len()
        } else {
            named_values(pieces).len()
        },
        None => named_values(pieces).len(),
    }
}

/// Whether streamed text is a tool call in JSON rather than prose, so that
/// it is not shown as chat text.
pub fn streaming_text_is_ollama_tool_json(text: &str) -> (r: bool)
    ensures
        r == (trim(text@).len() > 0 && reply_call_count(
            json_text_value(trim(text@)),
            parsed_values(object_spans(trim(text@), 0)),
        ) > 0),
{
    let calls = parse_ollama_content_tool_calls(text);
    calls.len() > 0
}

/// No object inside `v`, at any depth, holds a null or blank-string member.
pub open spec fn free_of_blank_members(v: JsonValue) -> bool
    decreases v,
{
    match v {
        JsonValue::Object(ms) => forall|k: int|
            #![trigger ms@[k]]
            0 <= k < ms@.len() ==> kept_value(ms@[k].value) && free_of_blank_members(ms@[k].value),
        JsonValue::Array(xs) => forall|k: int|
            #![trigger xs@[k]]
            0 <= k < xs@.len() ==> free_of_blank_members(xs@[k]),
        _ => true,
    }
}

proof fn lemma_kept_positions(ms: Seq<JsonMember>)
    ensures
        forall|k: int|
            #![trigger kept_positions(ms)[k]]
            0 <= k < kept_positions(ms).len() ==> 0 <= kept_positions(ms)[k] < ms.len() && kept_value(
                ms[kept_positions(ms)[k]].value,
            ),
    decreases ms.len(),
{
    if ms.len() > 0 {
        lemma_kept_positions(ms.drop_last());
        assert forall|k: int| 0 <= k < kept_positions(ms.drop_last()).len() implies ms[kept_positions(
            ms.drop_last(),
        )[k]] == ms.drop_last()[kept_positions(ms.drop_last())[k]] by {}
    }
}

/// Normalised arguments hold no null or blank-string member in any object,
/// however deep.
pub proof fn law_normalized_has_no_blank_members(inp: JsonValue, out: JsonValue)
    requires
        normalized(inp, out),
    ensures
        free_of_blank_members(out),
    decreases inp,
{
    match inp {
        JsonValue::Object(ms) => {
            let pos = kept_positions(ms@);
            lemma_kept_positions(ms@);
            let outs = out->Object_0@;
            assert forall|k: int| 0 <= k < outs.len() implies kept_value(#[trigger] outs[k].value)
                && free_of_blank_members(outs[k].value) by {
                assert(0 <= pos[k] < ms@.len());
                assert(normalized(ms@[pos[k]].value, outs[k].value));
                assert(kept_value(ms@[pos[k]].value));
                law_normalized_has_no_blank_members(ms@[pos[k]].value, outs[k].value);
            }
        },
        JsonValue::Array(xs) => {
            let outs = out->Array_0@;
            assert forall|k: int| 0 <= k < outs.len() implies free_of_blank_members(#[trigger] outs[k]) by {
                law_normalized_has_no_blank_members(xs@[k], outs[k]);
            }
        },
        _ => {},
    }
}

/// A tool as the Messages API takes it.
#[derive(Debug, PartialEq, Eq)]
pub struct ToolSchema {
    /// Wire name (dots replaced by underscores).
    pub name: String,
    pub description: &'static str,
    pub input_schema: JsonValue,
}

/// Function payload inside an OpenAI tool definition.
#[derive(Debug, PartialEq, Eq)]
pub struct OpenAiFunctionSchema {
    pub name: String,
    pub description: &'static str,
    pub parameters: JsonValue,
}

/// A tool as the OpenAI Chat Completions API takes it.
#[derive(Debug, PartialEq, Eq)]
pub struct OpenAiToolSchema {
    /// Always `function`.
    pub kind: &'static str,
    pub function: OpenAiFunctionSchema,
}

/// `s` is the Messages API schema of `d`.
pub open spec fn is_claude_schema(d: KiwiToolDef, s: ToolSchema) -> bool {
    &&& s.name@ == spec_openai_tool_name(d.id@)
    &&& s.description == d.description
    &&& is_input_schema(d, s.input_schema)
}

/// `s` is the OpenAI schema of `d`.
pub open spec fn is_openai_schema(d: KiwiToolDef, s: OpenAiToolSchema) -> bool {
    &&& s.kind@ == "function"@
    &&& s.function.name@ == spec_openai_tool_name(d.id@)
    &&& s.function.description == d.description
    &&& is_input_schema(d, s.function.parameters)
}

/// `s` is the Messages API schema of the registered tool `i`.
pub open spec fn registry_claude_schema(s: ToolSchema, i: int) -> bool {
    exists|d: KiwiToolDef| def_matches(d, i) && is_claude_schema(d, s)
}

/// `s` is the OpenAI schema of the registered tool `i`.
pub open spec fn registry_openai_schema(s: OpenAiToolSchema, i: int) -> bool {
    exists|d: KiwiToolDef| def_matches(d, i) && is_openai_schema(d, s)
}

/// Registry entries as Messages API tool schemas, in order.
pub fn tools_for_claude(tools: &[KiwiToolDef]) -> (r: Vec<ToolSchema>)
    ensures
        r@.len() == tools@.len(),
        forall|k: int| 0 <= k < tools@.len() ==> is_claude_schema(tools@[k], #[trigger] r@[k]),
{
    let mut out: Vec<ToolSchema> = Vec::new();
    let mut i: usize = 0;
    while i < tools.len()
        invariant
            i <= tools@.len(),
            out@.len() == i,
            forall|k: int| 0 <= k < i ==> is_claude_schema(tools@[k], #[trigger] out@[k]),
        decreases tools.len() - i,
    {
        let d = &tools[i];
        out.push(ToolSchema { name: openai_tool_name(d.id), description: d.description, input_schema: d.input_schema() });
        i = i + 1;
    }
    out
}

/// Registry entries as OpenAI Chat Completions tool schemas, in order.
pub fn tools_for_openai(tools: &[KiwiToolDef]) -> (r: Vec<OpenAiToolSchema>)
    ensures
        r@.len() == tools@.len(),
        forall|k: int| 0 <= k < tools@.len() ==> is_openai_schema(tools@[k], #[trigger] r@[k]),
{
    let mut out: Vec<OpenAiToolSchema> = Vec::new();
    let mut i: usize = 0;
    while i < tools.len()
        invariant
            i <= tools@.len(),
            out@.len() == i,
            forall|k: int| 0 <= k < i ==> is_openai_schema(tools@[k], #[trigger] out@[k]),
        decreases tools.len() - i,
    {
        let d = &tools[i];
        let kind: &'static str = "function";
        proof {
            reveal_strlit("function");
        }
        out.push(
            OpenAiToolSchema {
                kind,
                function: OpenAiFunctionSchema {
                    name: openai_tool_name(d.id),
                    description: d.description,
                    parameters: d.input_schema(),
                },
            },
        );
        i = i + 1;
    }
    out
}

impl ToolRegistry {
    /// Every registered tool as a Messages API schema.
    pub fn claude_schemas() -> (r: Vec<ToolSchema>)
        ensures
            r@.len() == 22,
            forall|i: int| 0 <= i < 22 ==> registry_claude_schema(#[trigger] r@[i], i),
    {
        let all = ToolRegistry::all();
        let r = tools_for_claude(all.as_slice());
        proof {
            assert forall|i: int| 0 <= i < 22 implies registry_claude_schema(#[trigger] r@[i], i) by {
                assert(def_matches(all@[i], i) && is_claude_schema(all@[i], r@[i]));
            }
        }
        r
    }

    /// Every registered tool as an OpenAI Chat Completions schema.
    pub fn openai_schemas() -> (r: Vec<OpenAiToolSchema>)
        ensures
            r@.len() == 22,
            forall|i: int| 0 <= i < 22 ==> registry_openai_schema(#[trigger] r@[i], i),
    {
        let all = ToolRegistry::all();
        let r = tools_for_openai(all.as_slice());
        proof {
            assert forall|i: int| 0 <= i < 22 implies registry_openai_schema(#[trigger] r@[i], i) by {
                assert(def_matches(all@[i], i) && is_openai_schema(all@[i], r@[i]));
            }
        }
        r
    }
}

/// A character allowed in a provider tool name.
pub open spec fn is_wire_char(c: char) -> bool {
    ('a' <= c <= 'z') || ('A' <= c <= 'Z') || ('0' <= c <= '9') || c == '_' || c == '-'
}

/// A wire name matches registry tool `j`.
pub open spec fn wire_matches(wire: Seq<char>, j: int) -> bool {
    spec_openai_tool_name(tool_ids()[j]) == wire || tool_ids()[j] == wire
}

proof fn lemma_wire_index_is(wire: Seq<char>, i: int)
    requires
        0 <= i < 22,
        wire_matches(wire, i),
        forall|j: int| 0 <= j < i ==> !wire_matches(wire, j),
    ensures
        wire_tool_index(wire) == Some(i),
{
    assert(0 <= i < 22 && (spec_openai_tool_name(tool_ids()[i]) == wire || tool_ids()[i] == wire) && forall|j: int|
        0 <= j < i ==> !(spec_openai_tool_name(tool_ids()[j]) == wire || tool_ids()[j] == wire)) by {
        assert forall|j: int| 0 <= j < i implies !(spec_openai_tool_name(tool_ids()[j]) == wire || tool_ids()[j] == wire) by {
            assert(!wire_matches(wire, j));
        }
    }
    let c = choose|k: int|
        0 <= k < 22 && (spec_openai_tool_name(tool_ids()[k]) == wire || tool_ids()[k] == wire) && forall|j: int|
            0 <= j < k ==> !(spec_openai_tool_name(tool_ids()[j]) == wire || tool_ids()[j] == wire);
    if c < i {
        assert(wire_matches(wire, c));
    } else if c > i {
        assert(wire_matches(wire, i));
    }
}

/// A character with `.` read as `_`, as a number.
pub open spec fn wire_norm(c: char) -> int {
    if c == '.' {
        '_' as int
    } else {
        c as int
    }
}

/// A key that tells the registry ids apart, and is the same for an id and
/// its wire name: the length and the first and eighth characters.
pub open spec fn wire_key(s: Seq<char>) -> int {
    s.len() * 1000000 + wire_norm(s[0]) * 1000 + wire_norm(s[7])
}

/// The registry index whose id has the key `key`; -1 for none.
pub open spec fn index_of_wire_key(key: int) -> int {
    if key == 9102097 {
        0
    } else if key == 10102105 {
        1
    } else if key == 10102116 {
        2
    } else if key == 15102097 {
        3
    } else if key == 11102108 {
        4
    } else if key == 9102118 {
        5
    } else if key == 9102115 {
        6
    } else if key == 9115117 {
        7
    } else if key == 13115097 {
        8
    } else if key == 10103116 {
        9
    } else if key == 8103102 {
        10
    } else if key == 10103109 {
        11
    } else if key == 10103110 {
        12
    } else if key == 11099104 {
        13
    } else if key == 11099117 {
        14
    } else if key == 10099101 {
        15
    } else if key == 13103105 {
        16
    } else if key == 10103112 {
        17
    } else if key == 13109115 {
        18
    } else if key == 15112095 {
        19
    } else if key == 11102097 {
        20
    } else if key == 9102101 {
        21
    } else {
        -1
    }
}

/// A character of a registry id.
pub open spec fn is_id_char(c: char) -> bool {
    ('a' <= c <= 'z') || c == '.' || c == '_'
}

proof fn lemma_registry_id(k: int)
    requires
        0 <= k < 22,
    ensures
        tool_ids()[k].len() > 7,
        index_of_wire_key(wire_key(tool_ids()[k])) == k,
        forall|m: int| 0 <= m < tool_ids()[k].len() ==> is_id_char(#[trigger] tool_ids()[k][m]),
{
    if k == 0 {
        reveal_strlit("file.read");
    } else if k == 1 {
        reveal_strlit("file.write");
    } else if k == 2 {
        reveal_strlit("file.patch");
    } else if k == 3 {
        reveal_strlit("file.read_range");
    } else if k == 4 {
        reveal_strlit("file.delete");
    } else if k == 5 {
        reveal_strlit("file.move");
    } else if k == 6 {
        reveal_strlit("file.list");
    } else if k == 7 {
        reveal_strlit("shell.run");
    } else if k == 8 {
        reveal_strlit("shell.capture");
    } else if k == 9 {
        reveal_strlit("git.status");
    } else if k == 10 {
        reveal_strlit("git.diff");
    } else if k == 11 {
        reveal_strlit("git.commit");
    } else if k == 12 {
        reveal_strlit("git.branch");
    } else if k == 13 {
        reveal_strlit("cargo.check");
    } else if k == 14 {
        reveal_strlit("cargo.build");
    } else if k == 15 {
        reveal_strlit("cargo.test");
    } else if k == 16 {
        reveal_strlit("github.issues");
    } else if k == 17 {
        reveal_strlit("github.prs");
    } else if k == 18 {
        reveal_strlit("memory.search");
    } else if k == 19 {
        reveal_strlit("project.context");
    } else if k == 20 {
        reveal_strlit("file.search");
    } else if k == 21 {
        reveal_strlit("file.grep");
    }
}

proof fn lemma_wire_key_of_name(x: Seq<char>)
    requires
        x.len() > 7,
    ensures
        wire_key(spec_openai_tool_name(x)) == wire_key(x),
{
}

/// Every registered tool is found again from its provider wire name and
/// from its dotted id, and its wire name uses only the characters the
/// providers accept.
pub proof fn law_wire_names_round_trip(i: int)
    requires
        0 <= i < 22,
    ensures
        wire_tool_index(spec_openai_tool_name(tool_ids()[i])) == Some(i),
        wire_tool_index(tool_ids()[i]) == Some(i),
        forall|k: int|
            0 <= k < spec_openai_tool_name(tool_ids()[i]).len() ==> is_wire_char(
                #[trigger] spec_openai_tool_name(tool_ids()[i])[k],
            ),
{
    let w = spec_openai_tool_name(tool_ids()[i]);
    let d = tool_ids()[i];
    lemma_registry_id(i);
    lemma_wire_key_of_name(d);
    assert forall|j: int| 0 <= j < i implies !wire_matches(w, j) && !wire_matches(d, j) by {
        lemma_registry_id(j);
        lemma_wire_key_of_name(tool_ids()[j]);
    }
    lemma_wire_index_is(w, i);
    lemma_wire_index_is(d, i);
    assert forall|k: int| 0 <= k < w.len() implies is_wire_char(#[trigger] w[k]) by {
        assert(is_id_char(d[k]));
    }
}

} // verus!
