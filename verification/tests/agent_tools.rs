use kiwi_core::agent::json::{JsonMember, JsonNumber, JsonValue};
use kiwi_core::agent::tools::{
    json_object_candidates, kiwi_tool_id_from_openai, normalize_tool_arguments, normalize_tool_arguments_json,
    ollama_supports_tools, ollama_tool_calls_in, ollama_uses_native_tool_calls, openai_tool_name,
    parse_ollama_content_tool_calls,
    resolve_tool_profile, streaming_text_is_ollama_tool_json, tool_profile_by_name, tools_for_claude,
    tools_for_openai,
    GitBranchAction, KiwiTool, ToolProfile, ToolRegistry, MANDATORY_TOOL_ID,
};

fn s(text: &str) -> JsonValue {
    JsonValue::String(text.to_string())
}

fn n(value: u64) -> JsonValue {
    JsonValue::Number(JsonNumber {
        as_u64: Some(value),
        literal: value.to_string(),
    })
}

fn obj(members: Vec<(&str, JsonValue)>) -> JsonValue {
    JsonValue::Object(
        members
            .into_iter()
            .map(|(key, value)| JsonMember {
                key: key.to_string(),
                value,
            })
            .collect(),
    )
}

fn empty() -> JsonValue {
    obj(vec![])
}

fn ids(profile: &str) -> Vec<&'static str> {
    ToolRegistry::for_profile(profile)
        .iter()
        .map(|tool| tool.id)
        .collect()
}

#[test]
fn parse_file_read() {
    let tool = KiwiTool::from_tool_use("file.read", &obj(vec![("path", s("src/main.rs"))])).unwrap();
    assert!(matches!(tool, KiwiTool::FileRead { path } if path == "src/main.rs"));
}

#[test]
fn parse_file_write() {
    let tool = KiwiTool::from_tool_use(
        "file.write",
        &obj(vec![("path", s("out.txt")), ("content", s("hello"))]),
    )
    .unwrap();
    assert!(
        matches!(tool, KiwiTool::FileWrite { path, content } if path == "out.txt" && content == "hello")
    );
}

#[test]
fn parse_file_list_default_depth() {
    let tool = KiwiTool::from_tool_use("file.list", &obj(vec![("path", s("src"))])).unwrap();
    assert!(matches!(tool, KiwiTool::FileList { depth: 2, .. }));
}

#[test]
fn parse_file_list_depth_capped_at_5() {
    let tool =
        KiwiTool::from_tool_use("file.list", &obj(vec![("path", s(".")), ("depth", n(99))])).unwrap();
    assert!(matches!(tool, KiwiTool::FileList { depth: 5, .. }));
}

#[test]
fn parse_shell_run() {
    let tool = KiwiTool::from_tool_use("shell.run", &obj(vec![("command", s("cargo test"))])).unwrap();
    assert!(matches!(tool, KiwiTool::ShellRun { command } if command == "cargo test"));
}

#[test]
fn parse_git_status() {
    let tool = KiwiTool::from_tool_use("git.status", &empty()).unwrap();
    assert!(matches!(tool, KiwiTool::GitStatus));
}

#[test]
fn parse_git_branch_defaults_to_list() {
    let tool = KiwiTool::from_tool_use("git.branch", &empty()).unwrap();
    assert!(matches!(
        tool,
        KiwiTool::GitBranch {
            action: GitBranchAction::List,
            name: None
        }
    ));
}

#[test]
fn parse_git_branch_create_requires_name() {
    let err = KiwiTool::from_tool_use("git.branch", &obj(vec![("action", s("create"))]));
    assert!(err.is_err());
    let tool = KiwiTool::from_tool_use(
        "git.branch",
        &obj(vec![("action", s("create")), ("name", s("feature-x"))]),
    )
    .unwrap();
    assert!(matches!(
        tool,
        KiwiTool::GitBranch {
            action: GitBranchAction::Create,
            name: Some(name)
        } if name == "feature-x"
    ));
}

#[test]
fn parse_git_branch_checkout() {
    let tool = KiwiTool::from_tool_use(
        "git.branch",
        &obj(vec![("action", s("checkout")), ("name", s("main"))]),
    )
    .unwrap();
    assert!(matches!(
        tool,
        KiwiTool::GitBranch {
            action: GitBranchAction::Checkout,
            ..
        }
    ));
}

#[test]
fn parse_git_commit_defaults_stage_all() {
    let tool = KiwiTool::from_tool_use("git.commit", &obj(vec![("message", s("fix bug"))])).unwrap();
    assert!(
        matches!(tool, KiwiTool::GitCommit { message, stage_all: true } if message == "fix bug")
    );
}

#[test]
fn parse_git_commit_stage_all_false() {
    let tool = KiwiTool::from_tool_use(
        "git.commit",
        &obj(vec![("message", s("wip")), ("stage_all", JsonValue::Bool(false))]),
    )
    .unwrap();
    assert!(matches!(
        tool,
        KiwiTool::GitCommit {
            stage_all: false,
            ..
        }
    ));
}

#[test]
fn parse_cargo_test_optional_filter_and_package() {
    let tool = KiwiTool::from_tool_use("cargo.test", &empty()).unwrap();
    assert!(matches!(
        tool,
        KiwiTool::CargoTest {
            filter: None,
            package: None
        }
    ));

    let tool = KiwiTool::from_tool_use(
        "cargo.test",
        &obj(vec![("filter", s("integration")), ("package", s("kiwi_core"))]),
    )
    .unwrap();
    assert!(matches!(
        tool,
        KiwiTool::CargoTest {
            filter: Some(f),
            package: Some(p)
        } if f == "integration" && p == "kiwi_core"
    ));
}

#[test]
fn parse_github_issues_defaults_and_clamps_limit() {
    let tool = KiwiTool::from_tool_use("github.issues", &empty()).unwrap();
    assert!(matches!(
        tool,
        KiwiTool::GitHubIssues {
            limit: 20,
            label: None,
            milestone: None
        }
    ));

    let tool = KiwiTool::from_tool_use("github.issues", &obj(vec![("limit", n(500))])).unwrap();
    assert!(matches!(tool, KiwiTool::GitHubIssues { limit: 100, .. }));

    let tool = KiwiTool::from_tool_use(
        "github.issues",
        &obj(vec![("limit", n(5)), ("label", s("bug")), ("milestone", s("M1"))]),
    )
    .unwrap();
    assert!(matches!(
        tool,
        KiwiTool::GitHubIssues {
            limit: 5,
            label: Some(l),
            milestone: Some(m)
        } if l == "bug" && m == "M1"
    ));
}

#[test]
fn parse_github_prs_defaults_and_clamps_limit() {
    let tool = KiwiTool::from_tool_use("github.prs", &empty()).unwrap();
    assert!(matches!(
        tool,
        KiwiTool::GitHubPrs {
            limit: 20,
            base: None
        }
    ));

    let tool = KiwiTool::from_tool_use("github.prs", &obj(vec![("limit", n(500))])).unwrap();
    assert!(matches!(tool, KiwiTool::GitHubPrs { limit: 100, .. }));

    let tool =
        KiwiTool::from_tool_use("github.prs", &obj(vec![("limit", n(10)), ("base", s("main"))])).unwrap();
    assert!(matches!(
        tool,
        KiwiTool::GitHubPrs {
            limit: 10,
            base: Some(b)
        } if b == "main"
    ));
}

#[test]
fn parse_memory_search_requires_query_and_clamps_limit() {
    let err = KiwiTool::from_tool_use("memory.search", &empty());
    assert!(err.is_err());

    let tool = KiwiTool::from_tool_use(
        "memory.search",
        &obj(vec![("query", s("layout engine")), ("limit", n(99))]),
    )
    .unwrap();
    assert!(matches!(
        tool,
        KiwiTool::MemorySearch {
            query,
            limit: 20
        } if query == "layout engine"
    ));

    let tool = KiwiTool::from_tool_use("memory.search", &obj(vec![("query", s("ADR-003"))])).unwrap();
    assert!(matches!(
        tool,
        KiwiTool::MemorySearch {
            query,
            limit: 5
        } if query == "ADR-003"
    ));
}

#[test]
fn parse_cargo_check_optional_package() {
    let tool = KiwiTool::from_tool_use("cargo.check", &empty()).unwrap();
    assert!(matches!(tool, KiwiTool::CargoCheck { package: None }));

    let tool = KiwiTool::from_tool_use("cargo.check", &obj(vec![("package", s("kiwi_core"))])).unwrap();
    assert!(matches!(tool, KiwiTool::CargoCheck { package: Some(pkg) } if pkg == "kiwi_core"));
}

#[test]
fn parse_cargo_check_treats_null_package_as_absent() {
    let tool = KiwiTool::from_tool_use("cargo.check", &obj(vec![("package", JsonValue::Null)])).unwrap();
    assert!(matches!(tool, KiwiTool::CargoCheck { package: None }));

    let normalized = normalize_tool_arguments(obj(vec![("package", JsonValue::Null)]));
    let tool = KiwiTool::from_tool_use("cargo.check", &normalized).unwrap();
    assert!(matches!(tool, KiwiTool::CargoCheck { package: None }));
}

#[test]
fn normalize_tool_arguments_drops_empty_strings() {
    let normalized = normalize_tool_arguments(obj(vec![("package", s(""))]));
    assert_eq!(normalized, empty());
}

#[test]
fn normalize_tool_arguments_recurses_and_keeps_other_values() {
    let input = obj(vec![
        ("a", s(" x ")),
        ("b", JsonValue::Null),
        (
            "c",
            JsonValue::Array(vec![obj(vec![("d", s("  ")), ("e", n(1))]), JsonValue::Null]),
        ),
    ]);
    let expected = obj(vec![
        ("a", s(" x ")),
        ("c", JsonValue::Array(vec![obj(vec![("e", n(1))]), JsonValue::Null])),
    ]);
    assert_eq!(normalize_tool_arguments(input), expected);
    assert_eq!(normalize_tool_arguments(JsonValue::Null), JsonValue::Null);
}

#[test]
fn parse_git_diff_optional_path() {
    let with_path =
        KiwiTool::from_tool_use("git.diff", &obj(vec![("path", s("src/main.rs"))])).unwrap();
    assert!(matches!(with_path, KiwiTool::GitDiff { path: Some(_) }));

    let no_path = KiwiTool::from_tool_use("git.diff", &empty()).unwrap();
    assert!(matches!(no_path, KiwiTool::GitDiff { path: None }));
}

#[test]
fn parse_file_grep_optional_path() {
    let tool = KiwiTool::from_tool_use(
        "file.grep",
        &obj(vec![("query", s("fn main")), ("path", s("src"))]),
    )
    .unwrap();
    assert!(matches!(tool, KiwiTool::FileGrep { path: Some(_), .. }));
}

#[test]
fn unknown_tool_returns_error() {
    let err = KiwiTool::from_tool_use("delete_everything", &empty());
    assert!(err.is_err());
    assert!(err.unwrap_err().0.contains("delete_everything"));
}

#[test]
fn missing_required_field_returns_error() {
    let err = KiwiTool::from_tool_use("file.read", &empty());
    assert!(err.is_err());
}

#[test]
fn parse_file_patch_requires_unique_fields() {
    let tool = KiwiTool::from_tool_use(
        "file.patch",
        &obj(vec![
            ("path", s("src/main.rs")),
            ("old_str", s("foo")),
            ("new_str", s("bar")),
        ]),
    )
    .unwrap();
    assert!(matches!(
        tool,
        KiwiTool::FilePatch {
            path,
            old_str,
            new_str
        } if path == "src/main.rs" && old_str == "foo" && new_str == "bar"
    ));
}

#[test]
fn parse_file_move_requires_src_and_dest() {
    let tool = KiwiTool::from_tool_use(
        "file.move",
        &obj(vec![("src", s("old.rs")), ("dest", s("new.rs"))]),
    )
    .unwrap();
    assert!(matches!(
        tool,
        KiwiTool::FileMove { src, dest } if src == "old.rs" && dest == "new.rs"
    ));
    assert!(KiwiTool::from_tool_use("file.move", &obj(vec![("src", s("old.rs"))])).is_err());
}

#[test]
fn parse_file_delete_requires_path() {
    let tool = KiwiTool::from_tool_use("file.delete", &obj(vec![("path", s("src/old.rs"))])).unwrap();
    assert!(matches!(tool, KiwiTool::FileDelete { path } if path == "src/old.rs"));
    assert!(KiwiTool::from_tool_use("file.delete", &empty()).is_err());
}

#[test]
fn parse_file_read_range_optional_end_line() {
    let tool = KiwiTool::from_tool_use(
        "file.read_range",
        &obj(vec![
            ("path", s("src/lib.rs")),
            ("start_line", n(10)),
            ("end_line", n(20)),
        ]),
    )
    .unwrap();
    assert!(matches!(
        tool,
        KiwiTool::FileReadRange {
            start_line: 10,
            end_line: Some(20),
            ..
        }
    ));

    let tool = KiwiTool::from_tool_use(
        "file.read_range",
        &obj(vec![("path", s("src/lib.rs")), ("start_line", n(1))]),
    )
    .unwrap();
    assert!(matches!(
        tool,
        KiwiTool::FileReadRange {
            start_line: 1,
            end_line: None,
            ..
        }
    ));
}

#[test]
fn parse_shell_capture_defaults_timeout() {
    let tool = KiwiTool::from_tool_use("shell.capture", &obj(vec![("command", s("echo hi"))])).unwrap();
    assert!(matches!(
        tool,
        KiwiTool::ShellCapture {
            command,
            timeout_secs: 30
        } if command == "echo hi"
    ));
}

#[test]
fn parse_shell_capture_clamps_timeout() {
    let tool = KiwiTool::from_tool_use(
        "shell.capture",
        &obj(vec![("command", s("echo hi")), ("timeout_secs", n(999))]),
    )
    .unwrap();
    assert!(matches!(
        tool,
        KiwiTool::ShellCapture {
            timeout_secs: 120,
            ..
        }
    ));
}

#[test]
fn parse_cargo_build_optional_release() {
    let tool = KiwiTool::from_tool_use("cargo.build", &obj(vec![("release", JsonValue::Bool(true))])).unwrap();
    assert!(matches!(
        tool,
        KiwiTool::CargoBuild {
            release: true,
            package: None
        }
    ));
}

#[test]
fn parse_project_context_accepts_empty_input() {
    let tool = KiwiTool::from_tool_use("project.context", &empty()).unwrap();
    assert!(matches!(tool, KiwiTool::ProjectContext));
}

#[test]
fn registry_returns_twenty_two_tools() {
    assert_eq!(ToolRegistry::all().len(), 22);
}

#[test]
fn coding_profile_matches_spec_tool_set() {
    assert_eq!(
        ids("coding"),
        vec![
            "file.read",
            "file.write",
            "file.patch",
            "file.read_range",
            "file.delete",
            "file.move",
            "file.list",
            "shell.run",
            "shell.capture",
            "git.status",
            "git.diff",
            "git.commit",
            "cargo.check",
            "cargo.build",
            "cargo.test",
            "memory.search",
            "file.search",
            "file.grep",
        ]
    );
}

#[test]
fn all_profiles_lists_every_defined_profile() {
    assert_eq!(ToolProfile::all_profiles().len(), 5);
    let names: Vec<_> = ToolProfile::all_profiles()
        .iter()
        .map(|profile| profile.name)
        .collect();
    assert!(names.contains(&"coding"));
    assert!(names.contains(&"code_review"));
    assert!(names.contains(&"github"));
    assert!(names.contains(&"planner"));
    assert!(names.contains(&"all"));
}

#[test]
fn planner_profile_matches_spec_tool_set() {
    assert_eq!(
        ids("planner"),
        vec![
            "file.read",
            "memory.search",
            "project.context",
            "file.search",
            "file.grep",
        ]
    );
}

#[test]
fn planner_profile_excludes_write_shell_and_git_tools() {
    let ids = ids("planner");
    assert!(!ids.contains(&"file.write"));
    assert!(!ids.contains(&"file.patch"));
    assert!(!ids.contains(&"shell.run"));
    assert!(!ids.contains(&"git.commit"));
    assert!(!ids.contains(&"git.status"));
    assert!(!ids.contains(&"cargo.check"));
}

#[test]
fn github_profile_matches_spec_tool_set() {
    assert_eq!(
        ids("github"),
        vec![
            "git.status",
            "git.commit",
            "git.branch",
            "github.issues",
            "github.prs",
            "memory.search",
        ]
    );
}

#[test]
fn github_profile_excludes_write_and_shell_tools() {
    let ids = ids("github");
    assert!(!ids.contains(&"file.write"));
    assert!(!ids.contains(&"file.patch"));
    assert!(!ids.contains(&"shell.run"));
    assert!(!ids.contains(&"shell.capture"));
    assert!(!ids.contains(&"cargo.check"));
}

#[test]
fn memory_search_is_mandatory_in_github_profile() {
    assert!(ids("github").contains(&"memory.search"));
}

#[test]
fn code_review_profile_matches_spec_tool_set() {
    assert_eq!(
        ids("code_review"),
        vec![
            "file.read",
            "file.read_range",
            "file.list",
            "git.diff",
            "cargo.check",
            "memory.search",
            "file.search",
            "file.grep",
        ]
    );
}

#[test]
fn file_read_range_schema_matches_spec() {
    let def = ToolRegistry::all()
        .into_iter()
        .find(|tool| tool.id == "file.read_range")
        .expect("file.read_range must be registered");
    assert_eq!(
        def.description,
        "Read a specific line range from a file with line numbers."
    );
    assert_eq!(def.required, Some(vec!["path", "start_line"]));
    let names: Vec<_> = def.params.iter().map(|p| p.name).collect();
    assert_eq!(names, vec!["path", "start_line", "end_line"]);
}

#[test]
fn code_review_profile_includes_file_read_range() {
    assert!(ids("code_review").contains(&"file.read_range"));
}

#[test]
fn code_review_profile_excludes_write_tools() {
    let ids = ids("code_review");
    assert!(!ids.contains(&"file.write"));
    assert!(!ids.contains(&"file.patch"));
    assert!(!ids.contains(&"git.commit"));
    assert!(!ids.contains(&"shell.run"));
}

#[test]
fn code_review_profile_includes_cargo_check() {
    let ids = ids("code_review");
    assert!(ids.contains(&"cargo.check"));
    assert!(!ids.contains(&"cargo.test"));
}

#[test]
fn github_profile_includes_github_and_git_tools() {
    let ids = ids("github");
    assert!(ids.contains(&"git.status"));
    assert!(ids.contains(&"git.branch"));
    assert!(ids.contains(&"git.commit"));
    assert!(ids.contains(&"github.issues"));
    assert!(ids.contains(&"github.prs"));
}

#[test]
fn memory_search_is_mandatory_in_code_review_profile() {
    assert!(ids("code_review").contains(&"memory.search"));
}

#[test]
fn memory_search_is_mandatory_in_planner_profile() {
    assert!(ids("planner").contains(&"memory.search"));
}

#[test]
fn planner_profile_includes_read_and_search_tools() {
    let ids = ids("planner");
    assert!(ids.contains(&"project.context"));
    assert!(ids.contains(&"file.read"));
    assert!(ids.contains(&"file.search"));
    assert!(ids.contains(&"file.grep"));
}

#[test]
fn file_patch_schema_matches_spec() {
    let def = ToolRegistry::all()
        .into_iter()
        .find(|tool| tool.id == "file.patch")
        .expect("file.patch must be registered");
    assert_eq!(
        def.description,
        "Surgical edit: replace a unique old_str with new_str in a file."
    );
    assert_eq!(def.required, Some(vec!["path", "old_str", "new_str"]));
    let names: Vec<_> = def.params.iter().map(|p| p.name).collect();
    assert_eq!(names, vec!["path", "old_str", "new_str"]);
}

#[test]
fn file_move_schema_matches_spec() {
    let def = ToolRegistry::all()
        .into_iter()
        .find(|tool| tool.id == "file.move")
        .expect("file.move must be registered");
    assert_eq!(def.description, "Rename or move a file within the repository.");
    assert_eq!(def.required, Some(vec!["src", "dest"]));
}

#[test]
fn coding_profile_includes_file_move() {
    assert!(ids("coding").contains(&"file.move"));
}

#[test]
fn file_delete_schema_matches_spec() {
    let def = ToolRegistry::all()
        .into_iter()
        .find(|tool| tool.id == "file.delete")
        .expect("file.delete must be registered");
    assert_eq!(def.description, "Delete a file from the repository.");
    assert_eq!(def.required, Some(vec!["path"]));
}

#[test]
fn coding_profile_includes_file_delete() {
    assert!(ids("coding").contains(&"file.delete"));
}

#[test]
fn shell_capture_schema_matches_spec() {
    let def = ToolRegistry::all()
        .into_iter()
        .find(|tool| tool.id == "shell.capture")
        .expect("shell.capture must be registered");
    assert_eq!(
        def.description,
        "Run a shell command and return captured stdout/stderr to the agent."
    );
    assert_eq!(def.required, Some(vec!["command"]));
    let names: Vec<_> = def.params.iter().map(|p| p.name).collect();
    assert!(names.contains(&"command"));
    assert!(names.contains(&"timeout_secs"));
}

#[test]
fn cargo_build_schema_matches_spec() {
    let def = ToolRegistry::all()
        .into_iter()
        .find(|tool| tool.id == "cargo.build")
        .expect("cargo.build must be registered");
    assert_eq!(
        def.description,
        "Run cargo build in the repository root and return build output."
    );
    let names: Vec<_> = def.params.iter().map(|p| p.name).collect();
    assert!(names.contains(&"package"));
    assert!(names.contains(&"release"));
}

#[test]
fn coding_profile_includes_cargo_build() {
    assert!(ids("coding").contains(&"cargo.build"));
}

#[test]
fn unknown_profile_falls_back_to_all() {
    assert_eq!(
        ToolRegistry::for_profile("nonexistent").len(),
        ToolRegistry::all().len()
    );
    assert!(tool_profile_by_name("nonexistent").is_none());
}

#[test]
fn resolve_tool_profile_prefers_provider_override() {
    assert_eq!(resolve_tool_profile("coding", Some("planner")), "planner");
    assert_eq!(resolve_tool_profile("coding", None), "coding");
}

#[test]
fn openai_tool_names_use_underscores_not_dots() {
    for tool in ToolRegistry::all() {
        let wire = openai_tool_name(tool.id);
        assert!(
            wire.chars()
                .all(|ch| ch.is_ascii_alphanumeric() || ch == '_' || ch == '-'),
            "invalid OpenAI tool name '{wire}' for id '{}'",
            tool.id
        );
        assert_eq!(kiwi_tool_id_from_openai(&wire), Some(tool.id));
    }
}

#[test]
fn kiwi_tool_id_from_openai_accepts_legacy_dotted_names() {
    assert_eq!(kiwi_tool_id_from_openai("file.read"), Some("file.read"));
    assert_eq!(kiwi_tool_id_from_openai("cargo_check"), Some("cargo.check"));
    assert_eq!(kiwi_tool_id_from_openai("rm_rf"), None);
}

#[test]
fn ollama_supports_known_tool_models() {
    assert!(ollama_supports_tools("gpt-oss:20b"));
    assert!(ollama_supports_tools("qwen2.5-coder:7b"));
    assert!(ollama_supports_tools("llama3.1:8b"));
    assert!(ollama_supports_tools("mistral:latest"));
    assert!(!ollama_supports_tools("nomic-embed-text"));
}

#[test]
fn parse_ollama_content_tool_calls_reads_qwen_json_blob() {
    let calls = parse_ollama_content_tool_calls("{\n  \"name\": \"cargo_check\",\n  \"arguments\": {}\n}");
    assert_eq!(calls.len(), 1);
    assert_eq!(calls[0].wire_name, "cargo_check");
    assert_eq!(calls[0].arguments, empty());
}

#[test]
fn parse_ollama_content_tool_calls_strips_null_optional_fields() {
    let calls = parse_ollama_content_tool_calls(r#"{"name":"cargo_check","arguments":{"package":null}}"#);
    assert_eq!(calls.len(), 1);
    assert_eq!(calls[0].arguments, obj(vec![("package", JsonValue::Null)]));
}

#[test]
fn parse_ollama_content_tool_calls_finds_calls_inside_prose() {
    let calls = parse_ollama_content_tool_calls(
        "  Sure, running it: {\"name\":\"git_status\"} and {\"name\":\"cargo_check\",\"parameters\":{\"x\":1}} {broken",
    );
    assert_eq!(calls.len(), 2);
    assert_eq!(calls[0].wire_name, "git_status");
    assert_eq!(calls[0].arguments, empty());
    assert_eq!(calls[1].wire_name, "cargo_check");
    assert_eq!(calls[1].arguments, obj(vec![("x", n(1))]));
    assert!(parse_ollama_content_tool_calls("   ").is_empty());
    assert!(parse_ollama_content_tool_calls("[1, 2]").is_empty());
}

#[test]
fn ollama_tool_calls_in_reads_arrays_and_pieces() {
    let whole = JsonValue::Array(vec![
        obj(vec![("name", s(" file_read ")), ("parameters", obj(vec![("path", s("a"))]))]),
        s("noise"),
        obj(vec![("name", s("git_status"))]),
    ]);
    let calls = ollama_tool_calls_in(Some(whole), vec![]);
    assert_eq!(calls.len(), 2);
    assert_eq!(calls[0].wire_name, "file_read");
    assert_eq!(calls[0].arguments, obj(vec![("path", s("a"))]));
    assert_eq!(calls[1].wire_name, "git_status");
    assert_eq!(calls[1].arguments, empty());

    let pieces = vec![obj(vec![("name", s("   "))]), obj(vec![("name", s("cargo_check"))])];
    let calls = ollama_tool_calls_in(None, pieces);
    assert_eq!(calls.len(), 1);
    assert_eq!(calls[0].wire_name, "cargo_check");
}

#[test]
fn json_object_candidates_finds_balanced_objects() {
    assert_eq!(
        json_object_candidates("Sure: {\"name\":\"a\",\"arguments\":{\"x\":1}} then {\"name\":\"b\"}"),
        vec![
            "{\"name\":\"a\",\"arguments\":{\"x\":1}}".to_string(),
            "{\"name\":\"b\"}".to_string(),
        ]
    );
    assert!(json_object_candidates("no braces here").is_empty());
}

#[test]
fn ollama_uses_native_tool_calls_for_llama3() {
    assert!(ollama_uses_native_tool_calls("gpt-oss:20b"));
    assert!(ollama_uses_native_tool_calls("llama3.1:8b"));
    assert!(!ollama_uses_native_tool_calls("qwen2.5-coder:7b"));
}

#[test]
fn streaming_text_is_ollama_tool_json_detects_tool_blob() {
    assert!(streaming_text_is_ollama_tool_json(r#"{"name":"cargo_check","arguments":{}}"#));
    assert!(!streaming_text_is_ollama_tool_json("I'll run cargo check now."));
}

#[test]
fn normalize_tool_arguments_json_strips_nulls() {
    assert_eq!(
        normalize_tool_arguments_json(r#"{"package":null,"other":"x"}"#),
        r#"{"other":"x"}"#
    );
    assert_eq!(normalize_tool_arguments_json("not json"), "not json");
    assert_eq!(
        normalize_tool_arguments_json(r#"{"a":{"b":" ","c":[null,{"d":null}]}}"#),
        r#"{"a":{"c":[null,{}]}}"#
    );
}

#[test]
fn registry_ids_use_dotted_namespace() {
    let ids: Vec<_> = ToolRegistry::all().iter().map(|tool| tool.id).collect();
    assert!(ids.iter().all(|id| id.contains('.')));
    assert!(ids.contains(&"file.read"));
    assert!(ids.contains(&"shell.run"));
}

#[test]
fn for_ollama_drops_shell_run() {
    let ollama: Vec<_> = ToolRegistry::for_ollama("coding").iter().map(|tool| tool.id).collect();
    assert!(!ollama.contains(&"shell.run"));
    assert!(ollama.contains(&"shell.capture"));
    assert_eq!(ollama.len(), ids("coding").len() - 1);
    assert_eq!(MANDATORY_TOOL_ID, "memory.search");
}

fn texts(items: &[&str]) -> JsonValue {
    JsonValue::Array(items.iter().map(|t| s(t)).collect())
}

#[test]
fn input_schema_lists_properties_choices_and_required() {
    let tools = ToolRegistry::all();
    let read = tools.iter().find(|t| t.id == "file.read").unwrap();
    assert_eq!(
        read.input_schema(),
        obj(vec![
            ("type", s("object")),
            (
                "properties",
                obj(vec![(
                    "path",
                    obj(vec![
                        ("type", s("string")),
                        ("description", s("Path relative to the repository root.")),
                    ]),
                )]),
            ),
            ("required", texts(&["path"])),
        ])
    );
    let branch = tools.iter().find(|t| t.id == "git.branch").unwrap();
    let schema = branch.input_schema();
    let JsonValue::Object(members) = &schema else { panic!("not an object") };
    assert_eq!(members.len(), 2);
    let JsonValue::Object(props) = &members[1].value else { panic!("no properties") };
    assert_eq!(props[0].key, "action");
    assert_eq!(
        props[0].value,
        obj(vec![
            ("type", s("string")),
            ("description", s("Action to perform (default: list).")),
            ("enum", texts(&["list", "create", "checkout"])),
        ])
    );
    for tool in &tools {
        assert!(matches!(tool.input_schema(), JsonValue::Object(ref m) if m[0].key == "type"));
    }
}

#[test]
fn claude_adapter_uses_wire_tool_names() {
    let schemas = tools_for_claude(&ToolRegistry::all());
    assert_eq!(schemas[0].name, "file_read");
}

#[test]
fn openai_adapter_uses_function_type() {
    let schemas = tools_for_openai(&ToolRegistry::all());
    assert_eq!(schemas.len(), 22);
    assert_eq!(schemas[0].kind, "function");
    assert_eq!(schemas[0].function.name, "file_read");
    assert!(matches!(schemas[0].function.parameters, JsonValue::Object(_)));
}

#[test]
fn registry_schemas_are_serialisable() {
    for schema in ToolRegistry::claude_schemas() {
        assert!(!schema.name.is_empty());
        assert!(matches!(schema.input_schema, JsonValue::Object(_)));
    }
    assert_eq!(ToolRegistry::openai_schemas().len(), 22);
}

#[test]
fn wire_names_round_trip_for_every_tool() {
    for tool in ToolRegistry::all() {
        let wire = openai_tool_name(tool.id);
        assert_eq!(kiwi_tool_id_from_openai(&wire), Some(tool.id));
        assert_eq!(kiwi_tool_id_from_openai(tool.id), Some(tool.id));
        assert!(wire.chars().all(|c| c.is_ascii_alphanumeric() || c == '_' || c == '-'));
    }
}
