//! The crates.io client against canned answers.

use std::cell::RefCell;

use clove::registry::crates_io::{api_root, CratesIo, DEFAULT_API_ROOT};
use clove::registry::{Fetch, FetchError};
use clove::version::Version;

/// Serves canned responses and records the URLs requested.
struct FakeFetch {
    responses: RefCell<Vec<Result<Option<String>, FetchError>>>,
    seen: RefCell<Vec<String>>,
}

impl FakeFetch {
    fn ok(body: &str) -> Self {
        FakeFetch::sequence(vec![Ok(Some(body.to_owned()))])
    }

    fn sequence(responses: Vec<Result<Option<String>, FetchError>>) -> Self {
        FakeFetch {
            responses: RefCell::new(responses),
            seen: RefCell::new(Vec::new()),
        }
    }
}

impl Fetch for FakeFetch {
    fn get(&self, url: &str) -> Result<Option<String>, FetchError> {
        self.seen.borrow_mut().push(url.to_owned());
        let mut rest = self.responses.borrow_mut();
        if rest.is_empty() {
            return Ok(Some("{}".to_owned()));
        }
        rest.remove(0)
    }
}

const ROOT: &str = "https://example.invalid/api/v1";

/// Dependents of `cargo-subcommand`: every row's `crate_id` is the depended-on crate.
const REVERSE_DEPS: &str = r#"{
  "dependencies":[
    {"id":1,"version_id":101,"crate_id":"cargo-subcommand","kind":"normal","downloads":1200},
    {"id":2,"version_id":102,"crate_id":"cargo-subcommand","kind":"normal","downloads":30}
  ],
  "versions":[
    {"id":101,"crate":"cargo-apk","num":"0.10.0","yanked":false,"bin_names":["cargo-apk"]},
    {"id":102,"crate":"cargo-xcodebuild","num":"0.1.5","yanked":false,"bin_names":["cargo-xcodebuild"]}
  ],
  "meta":{"total":2}
}"#;

/// Several versions of one crate, one of them yanked, and a dev-dependent.
const HAZARDS: &str = r#"{
  "dependencies":[
    {"id":1,"version_id":1,"crate_id":"clove-plugin","kind":"normal"},
    {"id":2,"version_id":2,"crate_id":"clove-plugin","kind":"normal"},
    {"id":3,"version_id":3,"crate_id":"clove-plugin","kind":"normal"},
    {"id":4,"version_id":4,"crate_id":"clove-plugin","kind":"dev"},
    {"id":5,"version_id":5,"crate_id":"clove-plugin","kind":"normal"}
  ],
  "versions":[
    {"id":1,"crate":"clove-sync-gitlab","num":"0.2.0","yanked":false,"bin_names":["clove-sync-gitlab"]},
    {"id":2,"crate":"clove-sync-gitlab","num":"0.10.0","yanked":false,"bin_names":["clove-sync-gitlab"]},
    {"id":3,"crate":"clove-sync-gitlab","num":"0.11.0","yanked":true,"bin_names":["clove-sync-gitlab"]},
    {"id":4,"crate":"some-test-harness","num":"1.0.0","yanked":false,"bin_names":["harness"]},
    {"id":5,"crate":"clove-import-jira","num":"0.1.0","yanked":false,"bin_names":["clove-import-jira"]}
  ],
  "meta":{"total":5}
}"#;

const CRATE: &str = r#"{
  "crate":{"id":"cargo-subcommand","name":"cargo-subcommand","description":"lib",
           "repository":"https://github.com/x/y","downloads":4711},
  "versions":[
    {"id":9,"crate":"cargo-subcommand","num":"0.12.0","yanked":false,"bin_names":["cargo-subcommand"]}
  ]
}"#;

#[test]
fn reverse_deps_join_resolves_dependents_not_the_depended_on_crate() {
    let fetch = FakeFetch::ok(REVERSE_DEPS);
    let client = CratesIo::with_root(&fetch, ROOT);
    let plugins = client
        .reverse_dependents("cargo-subcommand")
        .expect("fetch ok")
        .expect("registry present");

    let names: Vec<&str> = plugins.iter().map(|p| p.crate_name.as_str()).collect();
    assert!(
        names.contains(&"cargo-apk") && names.contains(&"cargo-xcodebuild"),
        "expected real dependents, got {names:?}"
    );
    assert!(
        !names.contains(&"cargo-subcommand"),
        "the depended-on crate must never appear as its own dependent: {names:?}"
    );
}

#[test]
fn dev_dependents_are_filtered_out() {
    let fetch = FakeFetch::ok(HAZARDS);
    let client = CratesIo::with_root(&fetch, ROOT);
    let plugins = client.reverse_dependents("clove-plugin").unwrap().unwrap();
    let names: Vec<&str> = plugins.iter().map(|p| p.crate_name.as_str()).collect();
    assert!(
        !names.contains(&"some-test-harness"),
        "a kind=dev dependent must not be listed as a plugin: {names:?}"
    );
    assert_eq!(names, vec!["clove-import-jira", "clove-sync-gitlab"]);
}

#[test]
fn duplicate_versions_collapse_to_the_highest_by_semver_not_string() {
    let fetch = FakeFetch::ok(HAZARDS);
    let client = CratesIo::with_root(&fetch, ROOT);
    let plugins = client.reverse_dependents("clove-plugin").unwrap().unwrap();

    let gitlab = plugins
        .iter()
        .find(|p| p.crate_name == "clove-sync-gitlab")
        .expect("gitlab present");
    assert_eq!(
        gitlab.latest,
        Version::parse("0.10.0"),
        "0.10.0 > 0.2.0 by semver (a string compare gets this backwards)"
    );
    assert_eq!(gitlab.latest_yanked, Version::parse("0.11.0"));
    assert!(!gitlab.fully_yanked());
    assert_eq!(
        plugins
            .iter()
            .filter(|p| p.crate_name == "clove-sync-gitlab")
            .count(),
        1
    );
}

#[test]
fn absent_registry_is_distinct_from_an_empty_one() {
    let absent = FakeFetch::sequence(vec![Ok(None)]);
    let client = CratesIo::with_root(&absent, ROOT);
    assert_eq!(client.reverse_dependents("clove-plugin").unwrap(), None);

    let empty = FakeFetch::ok(r#"{"dependencies":[],"versions":[],"meta":{"total":0}}"#);
    let client = CratesIo::with_root(&empty, ROOT);
    assert_eq!(
        client.reverse_dependents("clove-plugin").unwrap(),
        Some(vec![])
    );
}

#[test]
fn crate_probe_reads_bin_names_and_version() {
    let fetch = FakeFetch::ok(CRATE);
    let client = CratesIo::with_root(&fetch, ROOT);
    let found = client
        .crate_exists("cargo-subcommand")
        .unwrap()
        .expect("crate exists");
    assert_eq!(found.crate_name, "cargo-subcommand");
    assert_eq!(
        found.bin_names,
        vec!["cargo-subcommand"],
        "bin_names comes back from the name probe alone — no reverse-deps needed"
    );
    assert!(found.latest.as_ref().is_some());
    assert_eq!(
        fetch.seen.borrow().as_slice(),
        ["https://example.invalid/api/v1/crates/cargo-subcommand"]
    );
}

#[test]
fn a_404_is_absence_and_a_transport_failure_is_not() {
    let absent = FakeFetch::sequence(vec![Ok(None)]);
    let client = CratesIo::with_root(&absent, ROOT);
    assert_eq!(client.crate_exists("clove-sync-gitlab").unwrap(), None);

    let broken = FakeFetch::sequence(vec![Err(FetchError::Transport("dns".to_owned()))]);
    let client = CratesIo::with_root(&broken, ROOT);
    assert!(
        client.crate_exists("clove-sync-gitlab").is_err(),
        "a transport failure must not be reported as 'crate does not exist'"
    );
}

#[test]
fn an_invalid_name_never_reaches_the_network() {
    let fetch = FakeFetch::ok("{}");
    let client = CratesIo::with_root(&fetch, ROOT);
    assert_eq!(client.crate_exists("../../summary").unwrap(), None);
    assert!(
        fetch.seen.borrow().is_empty(),
        "a traversal name must not be put into a URL"
    );
}

#[test]
fn pagination_stops_on_a_short_page() {
    let fetch = FakeFetch::ok(REVERSE_DEPS);
    let client = CratesIo::with_root(&fetch, ROOT);
    client.reverse_dependents("cargo-subcommand").unwrap();
    assert_eq!(
        fetch.seen.borrow().len(),
        1,
        "a page short of per_page=100, so one request suffices"
    );
    assert!(fetch.seen.borrow()[0].contains("per_page=100"));
}

#[test]
fn a_fully_yanked_crate_reports_no_installable_version() {
    let body = r#"{
          "dependencies":[{"version_id":1,"crate_id":"clove-plugin","kind":"normal"}],
          "versions":[{"id":1,"crate":"clove-sync-gone","num":"0.3.0","yanked":true,
                       "bin_names":["clove-sync-gone"]}],
          "meta":{"total":1}
        }"#;
    let fetch = FakeFetch::ok(body);
    let client = CratesIo::with_root(&fetch, ROOT);
    let plugins = client.reverse_dependents("clove-plugin").unwrap().unwrap();
    assert_eq!(plugins.len(), 1);
    assert!(plugins[0].fully_yanked());
    assert_eq!(plugins[0].latest.as_ref(), None);
    assert_eq!(plugins[0].display_version().as_deref(), Some("0.3.0"));
}

#[test]
fn a_page_that_is_not_json_is_a_decoding_failure() {
    let fetch = FakeFetch::ok("<html>");
    let client = CratesIo::with_root(&fetch, ROOT);
    assert!(matches!(
        client.reverse_dependents("clove-plugin"),
        Err(FetchError::Decode(_))
    ));
}

#[test]
fn a_configured_root_loses_its_trailing_slashes() {
    let fetch = FakeFetch::ok("{}");
    let client = CratesIo::with_root(&fetch, "https://mirror/api/v1//");
    assert_eq!(client.crate_url("x"), "https://mirror/api/v1/crates/x");
    assert_eq!(api_root(Some("https://mirror")), "https://mirror");
    assert_eq!(api_root(Some("")), DEFAULT_API_ROOT);
    assert_eq!(api_root(None), DEFAULT_API_ROOT);
}
