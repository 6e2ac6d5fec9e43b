//! `clove setup` and `clove init`.

use clove::cmd::init::{config_to_write, edit_attributes, edit_git_config, gitignore, location, render_config, run as made};
use clove::cmd::mcp::catalog::tool_list;
use clove::cmd::mcp::names;
use clove::cmd::setup::{
    files_in, merge_settings, plan, read_settings, resolve_claude_dir, run, update_claude_md, write_clove_md, Assistant, Existing, SetupPlan,
    CLOVE_MD_CONTENT,
};
use clove::error::CloveError;
use clove::json::Json;
use clove::output::OutputFormat;

const SETTINGS: &str = "/tmp/proj/settings.json";
const MEMORY: &str = "HELPER.md";

fn helper() -> Assistant {
    Assistant::new("Helper", ".helper", MEMORY).unwrap()
}

/// The files as they stand after a plan was carried out on `before`.
fn carried_out(before: &Existing, p: SetupPlan) -> Existing {
    Existing {
        settings: p.settings.or_else(|| before.settings.clone()),
        clove_md: p.clove_md.or_else(|| before.clove_md.clone()),
        claude_md: p.claude_md.unwrap_or_else(|| before.claude_md.clone()),
    }
}

fn nothing() -> Existing {
    Existing {
        settings: None,
        clove_md: None,
        claude_md: String::new(),
    }
}

fn with_settings(text: &str) -> Existing {
    Existing {
        settings: Some(text.to_owned()),
        clove_md: None,
        claude_md: String::new(),
    }
}

fn written_settings(before: &Existing) -> Json {
    let p = plan(before, false, SETTINGS, MEMORY).unwrap();
    Json::parse(&p.settings.unwrap()).unwrap()
}

fn at<'a>(v: &'a Json, path: &[&str]) -> &'a Json {
    path.iter().fold(v, |v, key| v.get(key).unwrap())
}

// ---- CLOVE.md -----------------------------------------------------------------

#[test]
fn clove_md_creates() {
    let (content, changed, line) = write_clove_md(None, false);
    assert!(changed);
    assert_eq!(content.as_deref(), Some(CLOVE_MD_CONTENT));
    assert_eq!(line, "Created CLOVE.md.");
}

#[test]
fn clove_md_idempotent() {
    let (content, _, _) = write_clove_md(None, false);
    let (again, changed, _) = write_clove_md(content.as_deref(), false);
    assert!(!changed);
    assert_eq!(again, None);
}

#[test]
fn clove_md_updates_stale() {
    let (content, changed, line) = write_clove_md(Some("old content"), false);
    assert!(changed);
    assert_eq!(content.as_deref(), Some(CLOVE_MD_CONTENT));
    assert_eq!(line, "Updated CLOVE.md.");
}

#[test]
fn clove_md_dry_run_writes_nothing() {
    let (content, changed, line) = write_clove_md(None, true);
    assert!(changed);
    assert_eq!(content, None);
    assert_eq!(line, "Would create CLOVE.md.");
}

#[test]
fn the_directives_name_the_commands() {
    assert!(CLOVE_MD_CONTENT.starts_with("# clove\n\nThis repository uses **clove**"));
    assert!(CLOVE_MD_CONTENT.contains("  `clove dep add <id> <dep-id>`; use `clove blocked`"));
    assert!(CLOVE_MD_CONTENT.ends_with("JSON envelope, and exit codes.\n"));
}

// ---- The memory file ----------------------------------------------------------

#[test]
fn claude_md_creates() {
    let (content, changed, _) = update_claude_md("", false, MEMORY);
    assert!(changed);
    assert_eq!(content.unwrap(), "@CLOVE.md\n");
}

#[test]
fn claude_md_appends_with_blank_line_when_no_trailing_newline() {
    let (content, changed, _) = update_claude_md("# existing", false, MEMORY);
    assert!(changed);
    let content = content.unwrap();
    assert!(content.starts_with("# existing"));
    assert!(content.contains("\n\n@CLOVE.md\n"));
}

#[test]
fn claude_md_idempotent_and_detects_existing_ref() {
    let (content, _, _) = update_claude_md("", false, MEMORY);
    let (again, changed, line) = update_claude_md(&content.unwrap(), false, MEMORY);
    assert!(!changed);
    assert_eq!(again, None);
    assert_eq!(line, "HELPER.md already imports @CLOVE.md.");
    assert!(!update_claude_md("a\r\n  @CLOVE.md  \r\nb", false, MEMORY).1);
}

#[test]
fn claude_md_dry_run_writes_nothing() {
    let (content, changed, line) = update_claude_md("", true, MEMORY);
    assert!(changed);
    assert_eq!(content, None);
    assert_eq!(line, "Would create HELPER.md importing @CLOVE.md.");
}

// ---- settings.json ------------------------------------------------------------

#[test]
fn settings_creates_server_and_permissions() {
    let s = written_settings(&nothing());
    assert_eq!(
        at(&s, &["mcpServers", "clove", "command"]).as_str(),
        Some("clove")
    );
    assert_eq!(
        at(&s, &["mcpServers", "clove", "args"]),
        &Json::Array(vec![Json::Text("mcp".to_owned())])
    );
    let allow = at(&s, &["permissions", "allow"]).as_array().unwrap();
    for tool in names() {
        assert!(allow.contains(&Json::Text(format!("mcp__clove__{tool}"))));
    }
}

#[test]
fn settings_idempotent() {
    let first = plan(&nothing(), false, SETTINGS, MEMORY).unwrap();
    let after = carried_out(&nothing(), first);
    let again = plan(&after, false, SETTINGS, MEMORY).unwrap();
    assert_eq!(again.settings, None);
    let map = read_settings(after.settings.as_deref(), SETTINGS).unwrap();
    assert!(!merge_settings(map, SETTINGS).unwrap().1);
}

#[test]
fn settings_merges_preserving_foreign_entries() {
    let before = with_settings(
        r#"{"mcpServers":{"other":{"command":"x"}},"permissions":{"allow":["Bash(ls:*)"]}}"#,
    );
    let s = written_settings(&before);
    assert_eq!(at(&s, &["mcpServers", "other", "command"]).as_str(), Some("x"));
    assert_eq!(
        at(&s, &["mcpServers", "clove", "command"]).as_str(),
        Some("clove")
    );
    let allow = at(&s, &["permissions", "allow"]).as_array().unwrap();
    assert!(allow.contains(&Json::Text("Bash(ls:*)".to_owned())));
    assert_eq!(allow.len(), 1 + names().len());
}

#[test]
fn settings_dry_run_writes_nothing() {
    let p = plan(&nothing(), true, SETTINGS, MEMORY).unwrap();
    assert!(p.changed);
    assert_eq!(p.settings, None);
}

#[test]
fn settings_repairs_semantically_empty_containers() {
    let s = written_settings(&with_settings(
        r#"{"mcpServers":null,"permissions":{"allow":[]}}"#,
    ));
    assert_eq!(
        at(&s, &["mcpServers", "clove", "command"]).as_str(),
        Some("clove")
    );
    assert_eq!(
        at(&s, &["permissions", "allow"]).as_array().unwrap().len(),
        names().len()
    );
}

#[test]
fn settings_rejects_bad_shape_without_writing() {
    let err = plan(
        &with_settings(r#"{"mcpServers":"nope"}"#),
        false,
        SETTINGS,
        MEMORY,
    )
    .unwrap_err();
    match err {
        CloveError::InvalidField { field, reason } => {
            assert_eq!(field, "settings.json:mcpServers");
            assert_eq!(
                reason,
                "/tmp/proj/settings.json: expected \"mcpServers\" to be a JSON object, found string — fix or remove the key and re-run `clove setup`"
            );
        }
        other => panic!("expected InvalidField, got {other:?}"),
    }
    assert!(plan(
        &with_settings(r#"{"permissions":{"allow":{"a":1}}}"#),
        false,
        SETTINGS,
        MEMORY,
    )
    .is_err());
}

#[test]
fn settings_rejects_invalid_json() {
    let err = plan(&with_settings("{ not json"), false, SETTINGS, MEMORY).unwrap_err();
    match err {
        CloveError::InvalidField { reason, .. } => assert!(reason.contains("not valid JSON")),
        other => panic!("expected InvalidField, got {other:?}"),
    }
    assert!(plan(&with_settings("[1]"), false, SETTINGS, MEMORY).is_err());
}

// ---- Scope --------------------------------------------------------------------

#[test]
fn resolve_claude_dir_variants() {
    let project = "/tmp/proj";
    let dir = |global: bool, over: Option<&str>, home: Option<&str>| {
        resolve_claude_dir(project, global, over, home, "HOME", &helper())
    };
    assert_eq!(dir(false, None, None).unwrap(), "/tmp/proj/.helper");
    assert_eq!(
        dir(false, Some("/custom/.helper"), None).unwrap(),
        "/custom/.helper"
    );
    assert_eq!(
        dir(true, Some("/custom/.helper"), None).unwrap(),
        "/custom/.helper"
    );
    assert_eq!(
        dir(true, None, Some("/home/me")).unwrap(),
        "/home/me/.helper"
    );
    match dir(true, None, None).unwrap_err() {
        CloveError::InvalidField { field, reason } => {
            assert_eq!(field, "--global");
            assert_eq!(reason, "cannot resolve the home directory: $HOME is not set");
        }
        other => panic!("expected InvalidField, got {other:?}"),
    }
}

// ---- The whole command --------------------------------------------------------

#[test]
fn run_creates_all_three_and_is_idempotent() {
    let first = plan(&nothing(), false, SETTINGS, MEMORY).unwrap();
    assert!(first.settings.is_some() && first.clove_md.is_some() && first.claude_md.is_some());
    let after = carried_out(&nothing(), first);
    let again = plan(&after, false, SETTINGS, MEMORY).unwrap();
    assert!(!again.changed);
    assert_eq!(
        (&again.settings, &again.clove_md, &again.claude_md),
        (&None, &None, &None)
    );
    let lines = run(OutputFormat::Human, "/d", &again, false, false);
    assert_eq!(
        lines.last().unwrap().line(),
        "Everything is already set up. Nothing to do."
    );
    let json = run(OutputFormat::Json, "/d", &again, false, true);
    assert!(json[0].line().contains("\"changed\":false"));
}

#[test]
fn run_dry_run_writes_nothing() {
    let p = plan(&nothing(), true, SETTINGS, MEMORY).unwrap();
    assert_eq!(
        (&p.settings, &p.clove_md, &p.claude_md),
        (&None, &None, &None)
    );
    let lines = run(OutputFormat::Human, "/d", &p, true, false);
    assert_eq!(
        lines.last().unwrap().line(),
        "Dry run — nothing was written."
    );
    assert!(run(OutputFormat::Human, "/d", &p, true, true).is_empty());
}

#[test]
fn mcp_tool_names_match_server() {
    let mut server: Vec<String> = tool_list()
        .iter()
        .map(|t| t.get("name").and_then(|n| n.as_str()).unwrap().to_owned())
        .collect();
    server.sort();
    let mut ours = names();
    ours.sort();
    assert_eq!(ours, server);
}

// ---- Init ---------------------------------------------------------------------

#[test]
fn the_default_config_holds_the_prefix() {
    let text = render_config("proj");
    assert!(text.starts_with("# clove configuration. See `clove agent-doc`"));
    assert!(text.contains("\nid_prefix = \"proj\"\n"));
    assert!(text.contains("\n[index]\nauto_refresh = true\n\n[daemon]\n"));
    assert!(text.ends_with("idle_shutdown_min = 240\n"));
    assert_eq!(config_to_write(true, Some("p"), "d"), None);
    assert_eq!(config_to_write(false, None, "d"), Some(render_config("d")));
    assert_eq!(
        gitignore(&vec!["a".to_owned(), "b".to_owned()]),
        "a\nb\n"
    );
}

#[test]
fn a_repository_is_made_where_it_is_asked_for() {
    let here = location(None, "/w");
    assert_eq!((here.root.as_str(), here.clove_dir.as_str()), ("/w", "/w/.clove"));
    let there = location(Some("/x/.clove"), "/w");
    assert_eq!((there.root.as_str(), there.clove_dir.as_str()), ("/x", "/x/.clove"));
    assert_eq!(location(Some(".clove"), "/w").root, "");
    assert_eq!(location(Some("/"), "/w").root, ".");
    assert_eq!(location(Some("/.clove"), "/w").root, "/");
}

#[test]
fn the_merge_driver_is_installed_once() {
    let once = edit_attributes("*.png binary").unwrap();
    assert_eq!(once, "*.png binary\n.clove/issues/*.md merge=clove-item\n");
    assert_eq!(edit_attributes(&once), None);
    assert_eq!(
        edit_attributes("").unwrap(),
        ".clove/issues/*.md merge=clove-item\n"
    );
    assert_eq!(edit_git_config(None), None);
    let config = edit_git_config(Some("[core]\n")).unwrap();
    assert_eq!(
        config,
        "[core]\n\n[merge \"clove-item\"]\n\tname = clove item 3-way merge\n\tdriver = clove merge-driver %O %A %B %L\n"
    );
    assert_eq!(edit_git_config(Some(&config)), None);
}

#[test]
fn written_settings_are_left_alone() {
    let before = with_settings(r#"{"z":1,"permissions":{"allow":["Bash"],"deny":[]},"a":{"k":[true]}}"#);
    let first = plan(&before, false, SETTINGS, MEMORY).unwrap();
    assert!(first.changed);
    let after = carried_out(&before, first);
    let text = after.settings.clone().unwrap();
    assert!(text.contains("\n  \"permissions\": {\n"));
    let again = plan(&after, false, SETTINGS, MEMORY).unwrap();
    assert!(!again.changed);
    assert_eq!((again.settings, again.clove_md, again.claude_md), (None, None, None));
}

#[test]
fn the_files_lie_in_the_directory() {
    let files = files_in("/tmp/proj/.helper", &helper());
    assert_eq!(files.settings, "/tmp/proj/.helper/settings.json");
    assert_eq!(files.clove_md, "/tmp/proj/.helper/CLOVE.md");
    assert_eq!(files.claude_md, "/tmp/proj/.helper/HELPER.md");
}

#[test]
fn settings_with_fractions_are_left_alone_once_written() {
    let before = with_settings(r#"{"ratio": 0.1234567890123456789, "big": 1e300, "n": [1.5, -2]}"#);
    let first = plan(&before, false, SETTINGS, MEMORY).unwrap();
    assert!(first.settings.is_some());
    let after = carried_out(&before, first);
    let second = plan(&after, false, SETTINGS, MEMORY).unwrap();
    assert!(!second.changed);
    assert_eq!(second.settings, None);
}

#[test]
fn an_assistant_has_a_directory_and_a_file_of_one_component() {
    assert!(Assistant::new("H", "a/b", "H.md").is_none());
    assert!(Assistant::new("H", "..", "H.md").is_none());
    assert!(Assistant::new("H", ".", "H.md").is_none());
    assert!(Assistant::new("H", ".h", "").is_none());
    assert!(Assistant::new("H", ".h", "c:H.md").is_none());
    assert!(Assistant::new("H", "...", "H.md").is_some());
}

#[test]
fn a_new_repository_names_what_to_run_next() {
    let at = location(None, "/w");
    let lines = made(OutputFormat::Human, &at, true, false, "Helper");
    assert_eq!(
        lines.last().unwrap().line(),
        "run 'clove setup' to register clove's MCP server with Helper"
    );
    assert!(made(OutputFormat::Human, &at, true, true, "Helper").is_empty());
}
