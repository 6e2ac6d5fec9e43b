//! `clove plugin list|search`: what is offered and how it is shown.

use clove::cmd::plugin::{
    available_json, conclude_search, consults_registry, header_width, installed_match, is_dispatchable, is_installed,
    latest_for, meta, not_installed, run_list_local, search, Discovery,
};
use clove::cli::PluginListArgs;
use clove::json::Json;
use clove::output::OutputFormat;
use clove::plugin::{parse_probe_json, EnrichedPlugin, PluginInfo, PluginStatus};
use clove::registry::RegistryPlugin;
use clove::version::Version;

fn discovered(name: &str, bins: &[&str]) -> RegistryPlugin {
    RegistryPlugin {
        crate_name: name.to_owned(),
        latest: Version::parse("0.2.0"),
        latest_prerelease: None,
        latest_yanked: None,
        description: Some("a plugin".to_owned()),
        repository: None,
        bin_names: bins.iter().map(|b| (*b).to_owned()).collect(),
        published_by: None,
        downloads: 0,
    }
}

fn installed_plugin(name: &str) -> EnrichedPlugin {
    EnrichedPlugin {
        info: PluginInfo {
            name: name.to_owned(),
            path: format!("/somewhere/clove-{name}"),
        },
        probed: None,
        status: PluginStatus::NoInfo,
        commands: vec![],
    }
}

fn text<'a>(v: &'a Json, key: &str) -> Option<&'a str> {
    v.get(key).and_then(|x| x.as_str())
}

#[test]
fn discovered_plugins_already_installed_are_filtered_out() {
    let discovered_set = vec![
        discovered("clove-sync-github", &["clove-sync-github"]),
        discovered("clove-sync-gitlab", &["clove-sync-gitlab"]),
    ];
    let installed = vec![installed_plugin("sync-github")];

    let available = not_installed(&discovered_set, &installed, "");
    assert_eq!(available.len(), 1);
    assert_eq!(available[0].crate_name, "clove-sync-gitlab");
}

#[test]
fn installed_match_ignores_the_platform_executable_suffix() {
    let candidate = discovered("clove-sync-github", &["clove-sync-github"]);
    let installed = vec![installed_plugin("sync-github")];
    assert!(is_installed(&candidate, &installed, ""));
    assert!(is_installed(&candidate, &installed, ".exe"));
}

#[test]
fn a_crate_with_no_dispatchable_binary_is_not_offered() {
    let lib_only = discovered("clove-plugin-utils", &[]);
    let wrong_name = discovered("clove-sync-odd", &["helper"]);
    let good = discovered("clove-sync-gitlab", &["clove-sync-gitlab"]);

    assert!(!is_dispatchable(&lib_only, ""));
    assert!(!is_dispatchable(&wrong_name, ""));
    assert!(is_dispatchable(&good, ""));

    let available = not_installed(&vec![lib_only, wrong_name, good], &vec![], "");
    assert_eq!(available.len(), 1);
    assert_eq!(available[0].crate_name, "clove-sync-gitlab");
}

#[test]
fn a_bin_without_the_clove_prefix_never_counts_as_installed() {
    let candidate = discovered("clove-sync-gitlab", &["gitlab"]);
    let installed = vec![installed_plugin("gitlab")];
    assert!(
        !is_installed(&candidate, &installed, ""),
        "an unprefixed bin must not match an installed plugin"
    );
}

#[test]
fn search_rows_carry_the_real_compat_verdict_not_a_synthesized_ok() {
    let mut local = installed_plugin("sync-github");
    local.status = PluginStatus::NeedsNewerClove;
    let installed = vec![local];
    let candidate = discovered("clove-sync-github", &["clove-sync-github"]);

    let matched = installed_match(&candidate, &installed, "").expect("matches");
    assert_eq!(matched.status.as_str(), "needs_newer_clove");
}

#[test]
fn an_absent_registry_warns_but_is_not_an_error() {
    let discovery = Discovery::Available(None);
    assert!(discovery.plugins().is_empty());
    let warning = discovery.warning(false).expect("absent registry warns");
    assert!(warning.contains("not published"));
}

#[test]
fn a_published_but_empty_registry_does_not_warn() {
    let discovery = Discovery::Available(Some(vec![]));
    assert_eq!(discovery.warning(false), None);
}

#[test]
fn a_failed_discovery_reports_its_cause() {
    let discovery = Discovery::Failed("could not reach crates.io: dns".to_owned());
    assert!(discovery.plugins().is_empty());
    assert!(discovery.warning(false).unwrap().contains("dns"));
}

#[test]
fn available_rows_carry_the_registry_status_not_a_compat_verdict() {
    let value = available_json(&discovered("clove-sync-gitlab", &["clove-sync-gitlab"]), "");
    assert_eq!(text(&value, "status"), Some("available"));
    assert_eq!(value.get("installed").and_then(|v| v.as_bool()), Some(false));
    assert_eq!(text(&value, "latest_version"), Some("0.2.0"));
    assert_eq!(value.get("version"), Some(&Json::Null));
    assert_eq!(text(&value, "crate"), Some("clove-sync-gitlab"));
}

#[test]
fn meta_reports_a_discovery_failure_through_warnings() {
    let with_error = meta(1, 0, Some("offline"));
    assert_eq!(
        with_error.get("warnings"),
        Some(&Json::Array(vec![Json::Text("offline".to_owned())]))
    );
    assert_eq!(
        with_error.get("installed_count").and_then(|v| v.as_u64()),
        Some(1)
    );

    let clean = meta(1, 2, None);
    assert_eq!(clean.get("warnings"), Some(&Json::Array(vec![])));
    assert_eq!(clean.get("count").and_then(|v| v.as_u64()), Some(3));
}

#[test]
fn search_matches_names_and_descriptions_whatever_the_case() {
    let all = vec![
        discovered("clove-sync-gitlab", &["clove-sync-gitlab"]),
        discovered("clove-sync-odd", &["helper"]),
    ];
    assert_eq!(search(&all, "GITLAB", "").len(), 1);
    assert_eq!(search(&all, "A Plugin", "").len(), 1);
    assert!(search(&all, "jira", "").is_empty());
}

#[test]
fn a_search_that_finds_nothing_falls_back_to_the_probe() {
    let (found, warning) = conclude_search(
        vec![],
        false,
        None,
        Ok(vec![discovered("clove-sync-x", &["clove-sync-x"])]),
    );
    assert_eq!(found.len(), 1);
    assert_eq!(warning, None);
    let (none, told) = conclude_search(vec![], false, None, Err("offline".to_owned()));
    assert!(none.is_empty());
    assert!(told.unwrap().contains("offline"));
}

#[test]
fn the_latest_version_is_that_of_the_crate_that_builds_the_plugin() {
    let all = vec![discovered("clove-sync-gitlab", &["clove-sync-gitlab"])];
    let mut old = installed_plugin("sync-gitlab");
    assert_eq!(latest_for(&old, &all, ""), None);
    old.probed = parse_probe_json(r#"{"name":"sync-gitlab","version":"0.1.0"}"#);
    assert_eq!(latest_for(&old, &all, ""), Some("0.2.0".to_owned()));
    let mut current = installed_plugin("sync-gitlab");
    current.probed = parse_probe_json(r#"{"name":"sync-gitlab","version":"0.2.0"}"#);
    assert_eq!(latest_for(&current, &all, ""), None);
}

#[test]
fn a_plain_list_asks_no_registry() {
    assert!(!consults_registry(&PluginListArgs {
        all: false,
        refresh: false
    }));
    assert!(consults_registry(&PluginListArgs {
        all: false,
        refresh: true
    }));
    let out = run_list_local(OutputFormat::Json, &vec![installed_plugin("sync-github")], "");
    assert!(out[0].line().contains("\"name\":\"sync-github\""));
    assert_eq!(header_width("NAME", &vec!["sync-github".to_owned()]), 11);
    assert_eq!(header_width("NAME", &vec!["x".to_owned()]), 4);
}
