use kiwi_core::config::document::{
    set_user_agent, set_user_agent_mode, set_user_theme, theme_override_in, TomlEntry, TomlValue,
};
use kiwi_core::config::file_text::{
    project_has_theme_override, user_agent_config_text, user_agent_mode_config_text,
    user_theme_config_text, ConfigEditError,
};

fn text(s: &str) -> TomlValue {
    TomlValue::String(s.to_string())
}

fn table(entries: Vec<(&str, TomlValue)>) -> TomlValue {
    TomlValue::Table(
        entries
            .into_iter()
            .map(|(key, value)| TomlEntry {
                key: key.to_string(),
                value,
            })
            .collect(),
    )
}

fn get<'a>(value: &'a TomlValue, key: &str) -> Option<&'a TomlValue> {
    match value {
        TomlValue::Table(entries) => entries.iter().find(|e| e.key == key).map(|e| &e.value),
        _ => None,
    }
}

#[test]
fn set_user_theme_fills_an_empty_document() {
    let out = set_user_theme(table(vec![]), "dracula").expect("persist");
    let theme = get(&out, "theme").expect("theme");
    assert_eq!(get(theme, "name"), Some(&text("dracula")));
}

#[test]
fn set_user_theme_keeps_other_sections() {
    let doc = table(vec![
        ("editor", table(vec![("command", text("nvim"))])),
        ("theme", table(vec![("name", text("kiwi-dark")), ("custom", table(vec![]))])),
    ]);
    let out = set_user_theme(doc, "nord").expect("persist");
    assert_eq!(get(get(&out, "editor").unwrap(), "command"), Some(&text("nvim")));
    let theme = get(&out, "theme").unwrap();
    assert_eq!(get(theme, "name"), Some(&text("nord")));
    assert!(get(theme, "custom").is_none());
}

#[test]
fn set_user_theme_rejects_non_tables() {
    assert_eq!(set_user_theme(text("x"), "nord"), Err("config root must be a table".to_string()));
    assert_eq!(
        set_user_theme(table(vec![("theme", text("x"))]), "nord"),
        Err("[theme] must be a table".to_string())
    );
}

#[test]
fn project_has_theme_override_detects_project_theme_name() {
    assert!(project_has_theme_override(Some("[theme]\nname = \"project-theme\"\n")));
    assert!(!project_has_theme_override(Some("[theme]\nname = \"  \"\n")));
    assert!(!project_has_theme_override(Some("[editor]\ncommand = \"vim\"\n")));
    assert!(!project_has_theme_override(Some("[theme\nname = ")));
    assert!(!project_has_theme_override(None));
}

#[test]
fn theme_override_in_reads_documents() {
    let doc = table(vec![("theme", table(vec![("name", text("project-theme"))]))]);
    assert!(theme_override_in(&doc));
    let blank = table(vec![("theme", table(vec![("name", text("  "))]))]);
    assert!(!theme_override_in(&blank));
    assert!(!theme_override_in(&table(vec![])));
}

#[test]
fn persist_user_theme_creates_file_when_missing() {
    let written = user_theme_config_text(None, "dracula").expect("persist");
    assert!(written.contains("name = \"dracula\""));
}

#[test]
fn persist_user_theme_updates_existing_without_clobbering_other_sections() {
    let existing = "[editor]\ncommand = \"nvim\"\n[theme]\nname = \"kiwi-dark\"\n";
    let written = user_theme_config_text(Some(existing), "nord").expect("persist");
    assert!(written.contains("command = \"nvim\""));
    assert!(written.contains("name = \"nord\""));
}

#[test]
fn user_theme_config_text_drops_custom_theme() {
    let existing = "[theme]\nname = \"kiwi-dark\"\ncustom = \"x\"\n";
    let written = user_theme_config_text(Some(existing), "nord").expect("persist");
    assert!(!written.contains("kiwi-dark"));
    assert!(!written.contains("custom"));
}

#[test]
fn config_text_edits_report_errors() {
    assert!(matches!(
        user_theme_config_text(Some("[theme\n"), "nord"),
        Err(ConfigEditError::Parse(_))
    ));
    assert_eq!(
        user_theme_config_text(Some("theme = \"x\"\n"), "nord"),
        Err(ConfigEditError::Validation("[theme] must be a table".to_string()))
    );
    assert_eq!(
        user_agent_config_text(Some("agent = 3\n"), "aider", &[]),
        Err(ConfigEditError::Validation("[agent] must be a table".to_string()))
    );
}

#[test]
fn user_agent_config_texts_keep_other_settings() {
    let existing = "[ui]\nscale = 1.5\n[agent.providers.openai]\nmodel = \"gpt\"\n";
    let out = user_agent_mode_config_text(Some(existing), "ollama", "llama3", None, Some("http://x"))
        .expect("persist");
    assert!(out.contains("scale = 1.5"));
    assert!(out.contains("model = \"gpt\""));
    assert!(out.contains("active = \"ollama\""));
    assert!(out.contains("api_url = \"http://x\""));

    let out = user_agent_config_text(Some(existing), "aider", &["--verbose".to_string()]).expect("persist");
    assert!(out.contains("command = \"aider\""));
    assert!(out.contains("\"--verbose\""));
    assert!(out.contains("scale = 1.5"));
}

#[test]
fn agent_mode_keeps_other_providers() {
    let doc = table(vec![(
        "agent",
        table(vec![
            ("command", text("agent")),
            (
                "providers",
                table(vec![
                    ("openai", table(vec![("model", text("gpt"))])),
                    ("ollama", table(vec![("model", text("llama")), ("api_url", text("http://x"))])),
                ]),
            ),
        ]),
    )]);
    let out = set_user_agent_mode(doc, "ollama", "qwen", Some("KEY"), None).expect("persist");
    let agent = get(&out, "agent").unwrap();
    assert_eq!(get(agent, "mode"), Some(&text("api")));
    assert_eq!(get(agent, "active"), Some(&text("ollama")));
    assert_eq!(get(agent, "command"), Some(&text("agent")));
    let providers = get(agent, "providers").unwrap();
    assert_eq!(get(get(providers, "openai").unwrap(), "model"), Some(&text("gpt")));
    let ollama = get(providers, "ollama").unwrap();
    assert_eq!(get(ollama, "model"), Some(&text("qwen")));
    assert_eq!(get(ollama, "api_key_env"), Some(&text("KEY")));
    assert_eq!(get(ollama, "api_url"), Some(&text("http://x")));
}

#[test]
fn agent_mode_reports_non_tables() {
    let doc = table(vec![("agent", table(vec![("providers", text("x"))]))]);
    assert_eq!(
        set_user_agent_mode(doc, "p", "m", None, None),
        Err("[agent.providers] must be a table".to_string())
    );
    let doc = table(vec![("agent", table(vec![("providers", table(vec![("p", text("x"))]))]))]);
    assert_eq!(
        set_user_agent_mode(doc, "p", "m", None, None),
        Err("provider entry must be a table".to_string())
    );
}

#[test]
fn persist_user_agent_sets_command_and_args() {
    let doc = table(vec![("agent", table(vec![("mode", text("api"))]))]);
    let out = set_user_agent(doc, "my-agent", &["--resume".to_string()]).expect("persist");
    let agent = get(&out, "agent").unwrap();
    assert_eq!(get(agent, "command"), Some(&text("my-agent")));
    assert_eq!(get(agent, "args"), Some(&TomlValue::Array(vec![text("--resume")])));
    assert_eq!(get(agent, "mode"), Some(&text("api")));
}
