//! Dispatch to plugins, and what they say of themselves.

use clove::cli::ColorChoice;
use clove::context::layout;
use clove::output::OutputFormat;
use clove::plugin::{
    binary_name, bool_wire, candidates, color_wire, enrich, export_env, is_valid_segment, list,
    list_enriched, parse_probe_json, plugin_argv, probe_info, probe_wait, resolve, run_as,
    search_dirs, Entry, PluginGlobals, PluginInfo, PluginStatus, ProbeWait, ProbedInfo,
    PLUGIN_API_VERSION,
};

fn s(items: &[&str]) -> Vec<String> {
    items.iter().map(|i| (*i).to_owned()).collect()
}

#[test]
fn binary_name_joins_segments_and_prefix() {
    assert_eq!(
        binary_name(&s(&["sync", "github"]), ".exe"),
        "clove-sync-github.exe"
    );
    assert_eq!(binary_name(&s(&["sync", "github"]), ""), "clove-sync-github");
    assert_eq!(binary_name(&s(&["echo"]), ""), "clove-echo");
}

#[test]
fn rejects_traversal_segments() {
    assert!(is_valid_segment("sync"));
    assert!(is_valid_segment("sync-github"));
    assert!(!is_valid_segment(""));
    assert!(!is_valid_segment(".."));
    assert!(!is_valid_segment("foo/../bin/sh"));
    assert!(!is_valid_segment("a\\b"));
    let dirs = s(&["/usr/bin"]);
    let files = candidates(&s(&["foo/../../bin/sh"]), &dirs, "");
    assert!(files.is_empty());
    assert_eq!(resolve(&files, &vec![true]), None);
}

#[test]
fn the_first_runnable_file_along_the_path_is_resolved() {
    let dirs = search_dirs(
        Some("/opt/clove"),
        &s(&["/plugins"]),
        Some("/home/u/.local/share/clove/bin"),
        &s(&["/usr/bin", "/bin"]),
    );
    assert_eq!(
        dirs,
        vec![
            "/opt/clove",
            "/plugins",
            "/home/u/.local/share/clove/bin",
            "/usr/bin",
            "/bin"
        ]
    );
    let files = candidates(&s(&["sync", "github"]), &dirs, "");
    assert_eq!(files.len(), 5);
    assert_eq!(files[1], "/plugins/clove-sync-github");
    assert_eq!(
        resolve(&files, &vec![false, false, false, true, true]).as_deref(),
        Some("/usr/bin/clove-sync-github")
    );
    assert_eq!(resolve(&files, &vec![false; 5]), None);
}

fn entry(name: &str, path: &str, executable: bool) -> Entry {
    Entry {
        file_name: name.to_owned(),
        path: path.to_owned(),
        executable,
    }
}

#[test]
fn plugins_are_listed_once_by_name() {
    let entries = vec![
        entry("clove-sync-github", "/a/clove-sync-github", true),
        entry("clove", "/a/clove", true),
        entry("cloved", "/a/cloved", true),
        entry("clove-", "/a/clove-", true),
        entry("clove-notes", "/a/clove-notes", false),
        entry("clove-sync-github", "/b/clove-sync-github", true),
        entry("clove-echo", "/b/clove-echo", true),
    ];
    let found = list(&entries, "");
    let names: Vec<(&str, &str)> = found
        .iter()
        .map(|p| (p.name.as_str(), p.path.as_str()))
        .collect();
    assert_eq!(
        names,
        vec![
            ("echo", "/b/clove-echo"),
            ("sync-github", "/a/clove-sync-github")
        ]
    );
    // Where the platform has a suffix, the file must carry it.
    assert!(list(&entries, ".exe").is_empty());
}

#[test]
fn wire_spellings_match_the_contract() {
    assert_eq!(color_wire(ColorChoice::Auto), "auto");
    assert_eq!(color_wire(ColorChoice::Always), "always");
    assert_eq!(color_wire(ColorChoice::Never), "never");
    assert_eq!(bool_wire(true), "1");
    assert_eq!(bool_wire(false), "0");
}

#[test]
fn run_as_maps_provides_tokens() {
    assert_eq!(
        run_as(&s(&["sync:github"]), "sync-github"),
        vec!["clove sync github"]
    );
    assert_eq!(
        run_as(&s(&["import:tk"]), "import-tk"),
        vec!["clove import tk"]
    );
    assert_eq!(run_as(&s(&["echo"]), "echo"), vec!["clove echo"]);
    assert_eq!(
        run_as(&s(&["sync:gitlab", "import:gitlab"]), "gitlab"),
        vec!["clove sync gitlab", "clove import gitlab"]
    );
}

#[test]
fn run_as_falls_back_to_name_heuristic() {
    assert_eq!(run_as(&s(&[]), "sync-github"), vec!["clove sync github"]);
    assert_eq!(run_as(&s(&[]), "import-tk"), vec!["clove import tk"]);
    assert_eq!(run_as(&s(&[]), "export-csv"), vec!["clove export csv"]);
    assert_eq!(run_as(&s(&[]), "frobnicate"), vec!["clove frobnicate"]);
    // Nothing behind the dash is no provider.
    assert_eq!(run_as(&s(&[]), "sync-"), vec!["clove sync-"]);
}

#[test]
fn parse_probe_json_reads_all_fields() {
    let json = r#"{
            "name":"clove-sync-github","version":"0.2.0",
            "about":"Two-way GitHub sync","provides":["sync:github"],
            "clove_plugin_api":1,"min_clove_plugin_api":1,"max_clove_plugin_api":1,
            "max_schema":1
        }"#;
    let probed = parse_probe_json(json).expect("parses");
    assert_eq!(probed.version, "0.2.0");
    assert_eq!(probed.about, "Two-way GitHub sync");
    assert_eq!(probed.provides, vec!["sync:github"]);
    assert_eq!(probed.clove_plugin_api, 1);
    assert_eq!(probed.min_clove_plugin_api, 1);
    assert_eq!(probed.max_clove_plugin_api, 1);
    assert_eq!(PluginStatus::classify(&probed), PluginStatus::Compatible);
}

#[test]
fn parse_probe_json_defaults_missing_compat_to_host() {
    let json = r#"{"name":"clove-echo","version":"0.1.0","about":"x","provides":["echo"]}"#;
    let probed = parse_probe_json(json).expect("parses");
    assert_eq!(probed.min_clove_plugin_api, PLUGIN_API_VERSION);
    assert_eq!(probed.max_clove_plugin_api, PLUGIN_API_VERSION);
    assert_eq!(PluginStatus::classify(&probed), PluginStatus::Compatible);
}

#[test]
fn parse_probe_json_rejects_garbage() {
    assert!(parse_probe_json("not json").is_none());
    assert!(parse_probe_json("").is_none());
}

#[test]
fn a_probe_that_failed_says_nothing() {
    let json = r#"{"version":"1","provides":["a",2,"b"],"max_schema":3}"#;
    assert_eq!(probe_info(false, Some(json)), None);
    assert_eq!(probe_info(true, None), None);
    let probed = probe_info(true, Some(json)).unwrap();
    assert_eq!(probed.provides, vec!["a", "b"]);
    assert_eq!(probed.max_schema, 3);
    assert_eq!(probe_wait(499), ProbeWait::Wait);
    assert_eq!(probe_wait(500), ProbeWait::GiveUp);
}

fn probe(min: u32, max: u32) -> ProbedInfo {
    ProbedInfo {
        version: String::new(),
        about: String::new(),
        provides: vec![],
        clove_plugin_api: min,
        min_clove_plugin_api: min,
        max_clove_plugin_api: max,
        max_schema: 1,
    }
}

#[test]
fn status_classification_matches_the_range_rule() {
    let host = PLUGIN_API_VERSION;
    assert_eq!(
        PluginStatus::classify(&probe(host, host)),
        PluginStatus::Compatible
    );
    assert_eq!(
        PluginStatus::classify(&probe(host, host - 1)),
        PluginStatus::Outdated
    );
    assert_eq!(
        PluginStatus::classify(&probe(host + 1, host + 1)),
        PluginStatus::NeedsNewerClove
    );
}

#[test]
fn status_wire_spellings() {
    assert_eq!(PluginStatus::Compatible.as_str(), "ok");
    assert_eq!(PluginStatus::Outdated.as_str(), "outdated");
    assert_eq!(PluginStatus::NeedsNewerClove.as_str(), "needs_newer_clove");
    assert_eq!(PluginStatus::NoInfo.as_str(), "no_info");
}

#[test]
fn a_plugin_is_enriched_with_its_answer() {
    let info = || PluginInfo {
        name: "sync-github".to_owned(),
        path: "/a/clove-sync-github".to_owned(),
    };
    let silent = enrich(info(), None);
    assert_eq!(silent.status, PluginStatus::NoInfo);
    assert_eq!(silent.commands, vec!["clove sync github"]);

    let all = list_enriched(&vec![info(), info()], &vec![Some(probe(1, 1))]);
    assert_eq!(all[0].status, PluginStatus::Compatible);
    assert_eq!(all[1].status, PluginStatus::NoInfo);
}

#[test]
fn a_plugin_is_started_in_the_resolved_environment() {
    let ctx = layout("/repo", "/elsewhere/.clove", "proj");
    assert_eq!(ctx.issues_dir, "/elsewhere/.clove/issues");
    assert_eq!(ctx.db_path, "/elsewhere/.clove/index.db");
    let globals = PluginGlobals {
        format: OutputFormat::Jsonl,
        color: ColorChoice::Never,
        quiet: true,
        no_index: false,
        deep: false,
    };
    let env = export_env(None, "0.2.0", &ctx, &globals, "sync", Some("github"));
    let get = |name: &str| {
        env.iter()
            .find(|(n, _)| n == name)
            .and_then(|(_, v)| v.clone())
    };
    assert_eq!(get("CLOVE").as_deref(), Some("clove"));
    assert_eq!(get("CLOVE_PLUGIN_API").as_deref(), Some("1"));
    assert_eq!(get("CLOVE_PROVIDER").as_deref(), Some("github"));
    assert_eq!(get("CLOVE_DIR").as_deref(), Some("/elsewhere/.clove"));
    assert_eq!(get("CLOVE_ROOT").as_deref(), Some("/repo"));
    assert_eq!(
        get("CLOVE_SYNC_DIR").as_deref(),
        Some("/elsewhere/.clove/sync")
    );
    assert_eq!(get("CLOVE_FORMAT").as_deref(), Some("jsonl"));
    assert_eq!(get("CLOVE_COLOR").as_deref(), Some("never"));
    assert_eq!(get("CLOVE_QUIET").as_deref(), Some("1"));
    assert_eq!(get("CLOVE_DEEP").as_deref(), Some("0"));
    assert_eq!(env.len(), 18);

    // A stray provider from outside is removed, not passed on.
    let env = export_env(None, "0.2.0", &ctx, &globals, "echo", None);
    let provider = env.iter().find(|(n, _)| n == "CLOVE_PROVIDER").unwrap();
    assert_eq!(provider.1, None);
    assert_eq!(
        plugin_argv(&s(&["sync", "github"]), &s(&["--dry-run"])),
        vec!["sync", "github", "--dry-run"]
    );
}

#[test]
fn what_is_listed_is_what_resolves() {
    let entries = vec![
        entry("clove-b", "/1/clove-b", false),
        entry("clove-a", "/1/clove-a", true),
        entry("clove-b", "/2/clove-b", true),
        entry("clove-a", "/2/clove-a", true),
    ];
    let found = list(&entries, "");
    let listed: Vec<_> = found.iter().map(|p| (p.name.as_str(), p.path.as_str())).collect();
    assert_eq!(listed, [("a", "/1/clove-a"), ("b", "/2/clove-b")]);
    let dirs = vec!["/1".to_owned(), "/2".to_owned()];
    for p in &found {
        let files = candidates(&vec![p.name.clone()], &dirs, "");
        let runnable = files
            .iter()
            .map(|f| entries.iter().any(|e| &e.path == f && e.executable))
            .collect();
        assert_eq!(resolve(&files, &runnable).as_ref(), Some(&p.path));
    }
}
