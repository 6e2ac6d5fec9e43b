//! The registry: names, errors, what cargo recorded, the cache, and the HTTP rules.

use clove::registry::cache::{
    read, record, temp_name, CacheFile, CACHE_SCHEMA, MAX_CACHE_BYTES, TTL,
};
use clove::registry::http::{
    after_failure, interpret, parse_retry_after, root_certificates, tls_hint, user_agent, Retry,
};
use clove::registry::provenance::{
    bare_subcommand_with, find_by_subcommand, installed_under, parse_pkgid, Source,
};
use clove::registry::{
    candidate_crate_names, display_safe, validate_crate_name, FetchError, RegistryPlugin,
    MAX_CRATE_NAME,
};
use clove::version::Version;

fn version(text: &str) -> Version {
    Version::parse(text).unwrap()
}

// ---- Names ----

#[test]
fn valid_crate_names_are_accepted() {
    for name in [
        "clove-sync-gitlab",
        "clove_plugin",
        "a",
        "gitlab",
        "clove-sync-gitlab2",
    ] {
        assert!(validate_crate_name(name).is_ok(), "{name} should be valid");
    }
}

#[test]
fn traversal_and_separator_names_are_rejected() {
    for name in [
        "..",
        "../../summary",
        "clove/../../summary",
        "clove-sync-gitlab/versions",
        "a\\b",
    ] {
        assert!(
            validate_crate_name(name).is_err(),
            "{name} must be rejected"
        );
    }
}

#[test]
fn flag_shaped_names_are_rejected() {
    for name in [
        "-rf",
        "--upload-pack=/bin/sh",
        "--template=/tmp/evil",
        "--config=source.crates-io.replace-with=\"evil\"",
    ] {
        assert!(
            validate_crate_name(name).is_err(),
            "{name} must be rejected — it would be read as a flag"
        );
    }
}

#[test]
fn empty_and_overlong_names_are_rejected() {
    assert!(validate_crate_name("").is_err());
    assert!(validate_crate_name(&"a".repeat(MAX_CRATE_NAME)).is_ok());
    assert!(validate_crate_name(&"a".repeat(MAX_CRATE_NAME + 1)).is_err());
}

#[test]
fn query_and_fragment_characters_are_rejected() {
    for name in ["clove?x=1", "clove#frag", "clove%2e%2e", "clove name"] {
        assert!(
            validate_crate_name(name).is_err(),
            "{name} must be rejected"
        );
    }
}

#[test]
fn a_rejected_character_is_named() {
    let message = validate_crate_name("clove?x=1").unwrap_err().to_string();
    assert!(message.contains("'?'"), "{message}");
}

#[test]
fn a_bare_name_stands_for_each_multiplexer() {
    assert_eq!(
        candidate_crate_names("gitlab"),
        vec![
            "clove-gitlab",
            "clove-sync-gitlab",
            "clove-import-gitlab",
            "clove-export-gitlab"
        ]
    );
    assert_eq!(
        candidate_crate_names("clove-sync-gitlab"),
        vec!["clove-sync-gitlab"]
    );
}

#[test]
fn controls_are_replaced_where_text_is_shown() {
    assert_eq!(display_safe("a\nb\u{1b}[2K"), "a\u{fffd}b\u{fffd}[2K");
    assert_eq!(display_safe("plain — text"), "plain — text");
}

// ---- Errors ----

#[test]
fn fetch_error_display_names_the_actionable_cause() {
    let rate_limited = FetchError::Status {
        code: 429,
        retry_after: Some(30),
        body: None,
    };
    assert!(rate_limited.to_string().contains("rate limit"));
    assert!(rate_limited.is_retryable_status());
    assert_eq!(rate_limited.retry_after(), Some(30));

    let forbidden = FetchError::Status {
        code: 403,
        retry_after: None,
        body: None,
    };
    assert!(forbidden.to_string().contains("User-Agent"));
    assert!(!forbidden.is_retryable_status());

    assert!(!FetchError::Transport("dns".to_owned()).is_retryable_status());
    assert!(!FetchError::Decode("bad json".to_owned()).is_retryable_status());
    assert!(FetchError::Status {
        code: 503,
        retry_after: None,
        body: None
    }
    .is_retryable_status());
}

#[test]
fn fully_yanked_crate_is_representable() {
    let plugin = RegistryPlugin {
        crate_name: "clove-sync-gone".to_owned(),
        latest: None,
        latest_prerelease: None,
        latest_yanked: Some(version("0.3.0")),
        description: None,
        repository: None,
        bin_names: vec![],
        published_by: None,
        downloads: 0,
    };
    assert!(plugin.fully_yanked());
    assert_eq!(plugin.latest.as_ref(), None);
    assert_eq!(plugin.display_version().as_deref(), Some("0.3.0"));
}

// ---- HTTP ----

#[test]
fn user_agent_is_sent_and_identifies_clove() {
    let agent = user_agent("0.2.0");
    assert!(agent.starts_with("clove/"));
    assert!(agent.contains("github.com/egeapak/clove"));
}

#[test]
fn tls_failures_get_an_actionable_hint() {
    let hinted = tls_hint("invalid peer certificate: UnknownIssuer");
    assert!(hinted.contains("bundled Mozilla roots"));
    assert!(hinted.contains("SSL_CERT_FILE"));

    assert_eq!(tls_hint("connection refused"), "connection refused");
}

#[test]
fn a_status_is_an_answer_or_a_failure() {
    assert_eq!(interpret(404, None, Ok("gone".to_owned())), Ok(None));
    assert_eq!(
        interpret(200, None, Ok("{}".to_owned())),
        Ok(Some("{}".to_owned()))
    );
    assert_eq!(
        interpret(429, Some(" 7 "), Ok("slow down".to_owned())),
        Err(FetchError::Status {
            code: 429,
            retry_after: Some(7),
            body: Some("slow down".to_owned()),
        })
    );
}

#[test]
fn only_a_server_that_asked_is_tried_again() {
    let busy = FetchError::Status {
        code: 503,
        retry_after: Some(2),
        body: None,
    };
    assert_eq!(after_failure(&busy, 0), Retry::After(2000));
    assert_eq!(after_failure(&busy, 2), Retry::GiveUp);
    let patient = FetchError::Status {
        code: 429,
        retry_after: Some(3600),
        body: None,
    };
    assert_eq!(after_failure(&patient, 0), Retry::GiveUp);
    assert_eq!(
        after_failure(&FetchError::Transport("dns".to_owned()), 0),
        Retry::GiveUp
    );
}

#[test]
fn a_retry_header_is_seconds() {
    assert_eq!(parse_retry_after(Some("30")), Some(30));
    assert_eq!(
        parse_retry_after(Some("Wed, 21 Oct 2015 07:28:00 GMT")),
        None
    );
    assert_eq!(parse_retry_after(None), None);
}

// ---- What cargo recorded ----

const REAL: &str = r#"{
      "installs": {
        "clove-plugin-echo 0.1.0 (path+file:///home/user/clove/crates/clove-plugin-echo)": {
          "version_req": null,
          "bins": ["clove-echo"],
          "features": [],
          "all_features": false,
          "no_default_features": false,
          "profile": "release",
          "target": "x86_64-unknown-linux-gnu",
          "rustc": "rustc 1.94.1"
        }
      }
    }"#;

#[test]
fn a_real_crates2_file_parses() {
    let installed = installed_under(Some(REAL.len() as u64), Some(REAL));
    assert_eq!(installed.len(), 1);
    assert_eq!(installed[0].package, "clove-plugin-echo");
    assert_eq!(installed[0].version, "0.1.0");
    assert_eq!(installed[0].bins, vec!["clove-echo"]);
    assert!(matches!(installed[0].source, Source::Path(_)));
}

#[test]
fn the_package_name_is_not_the_binary_name() {
    let installed = installed_under(Some(REAL.len() as u64), Some(REAL));
    let found = find_by_subcommand(&installed, "echo", "").expect("resolves by subcommand");
    assert_eq!(found.package, "clove-plugin-echo");
    assert_ne!(found.package, "clove-echo");
}

#[test]
fn sources_are_classified() {
    let raw = r#"{"installs":{
              "clove-sync-gitlab 0.2.0 (registry+https://github.com/rust-lang/crates.io-index)":{"bins":["clove-sync-gitlab"]},
              "clove-sync-x 0.1.0 (git+https://example.com/x?tag=v1#abc123)":{"bins":["clove-sync-x"]},
              "clove-sync-y 0.1.0 (sparse+https://index.crates.io/)":{"bins":["clove-sync-y"]}
            }}"#;
    let installed = installed_under(Some(raw.len() as u64), Some(raw));
    assert_eq!(installed.len(), 3);

    let gitlab = installed
        .iter()
        .find(|i| i.package == "clove-sync-gitlab")
        .unwrap();
    assert_eq!(gitlab.source, Source::Registry);

    let x = installed
        .iter()
        .find(|i| i.package == "clove-sync-x")
        .unwrap();
    assert_eq!(
        x.source,
        Source::Git {
            url: "https://example.com/x".to_owned(),
            reference: Some("tag=v1".to_owned()),
        },
        "a git install must be recognizable, so `update` re-clones instead of \
         looking the crate up on crates.io"
    );

    let y = installed
        .iter()
        .find(|i| i.package == "clove-sync-y")
        .unwrap();
    assert_eq!(y.source, Source::Registry);
}

#[test]
fn an_absent_or_corrupt_file_means_nothing_installed() {
    assert!(installed_under(None, None).is_empty(), "absent");
    assert!(
        installed_under(Some(10), Some("{ not json")).is_empty(),
        "corrupt"
    );
}

#[test]
fn an_unparseable_pkgid_is_skipped_not_guessed() {
    let raw = r#"{"installs":{
              "nonsense-without-source":{"bins":["clove-x"]},
              "clove-good 1.0.0 (registry+https://x)":{"bins":["clove-good"]}
            }}"#;
    let installed = installed_under(Some(raw.len() as u64), Some(raw));
    assert_eq!(installed.len(), 1);
    assert_eq!(installed[0].package, "clove-good");
}

#[test]
fn an_oversized_record_is_not_read() {
    assert!(installed_under(Some(16 * 1024 * 1024 + 1), Some(REAL)).is_empty());
}

#[test]
fn subcommand_extraction_ignores_the_platform_suffix() {
    assert_eq!(
        bare_subcommand_with("clove-sync-github.exe", ".exe"),
        Some("sync-github")
    );
    assert_eq!(
        bare_subcommand_with("clove-sync-github", ""),
        Some("sync-github")
    );
    assert_eq!(bare_subcommand_with("clove-echo", ""), Some("echo"));
    assert_eq!(bare_subcommand_with("clove-echo", ".exe"), Some("echo"));
    assert_eq!(bare_subcommand_with("ripgrep", ""), None);
    assert_eq!(bare_subcommand_with("clove-", ""), None);
}

#[test]
fn source_labels_are_human_readable() {
    assert_eq!(Source::Registry.label(), "crates.io");
    assert_eq!(
        Source::Git {
            url: "https://e.com/x".to_owned(),
            reference: Some("tag=v1".to_owned())
        }
        .label(),
        "git https://e.com/x (tag=v1)"
    );
}

#[test]
fn a_package_id_with_an_illegal_name_is_refused() {
    assert!(parse_pkgid("--upload-pack=x 1.0.0 (registry+https://x)").is_none());
    let (name, version, source) = parse_pkgid("clove-x 1.0.0 (registry+https://x)").unwrap();
    assert_eq!((name.as_str(), version.as_str()), ("clove-x", "1.0.0"));
    assert_eq!(source, Source::Registry);
}

// ---- The cache ----

const ROOT: &str = "https://crates.io/api/v1";
const HOUR: i128 = 3_600_000_000_000;
const NOW: i128 = 1_700_000_000_000_000_000;

fn sample() -> Vec<RegistryPlugin> {
    vec![RegistryPlugin {
        crate_name: "clove-sync-gitlab".to_owned(),
        latest: Some(version("0.10.0")),
        latest_prerelease: None,
        latest_yanked: Some(version("0.11.0")),
        description: Some("Two-way GitLab sync".to_owned()),
        repository: None,
        bin_names: vec!["clove-sync-gitlab".to_owned()],
        published_by: Some("someone".to_owned()),
        downloads: 41,
    }]
}

#[test]
fn fresh_cache_round_trips() {
    let file = record(ROOT, NOW, Some(&sample()));
    let read_back = read(Some(&file), 400, ROOT, NOW + HOUR, TTL).expect("fresh hit");
    let plugins = read_back.expect("registry present");
    assert_eq!(plugins.len(), 1);
    assert_eq!(plugins[0].crate_name, "clove-sync-gitlab");
    assert_eq!(
        plugins[0].latest.as_ref(),
        Some(&version("0.10.0")),
        "semver must survive the string round-trip through the cache"
    );
    assert_eq!(plugins[0].latest_yanked, Some(version("0.11.0")));
}

#[test]
fn expired_cache_is_a_miss() {
    let file = record(ROOT, NOW, Some(&sample()));
    assert!(read(Some(&file), 400, ROOT, NOW + TTL + HOUR / 60, TTL).is_none());
    assert!(read(Some(&file), 400, ROOT, NOW + TTL - HOUR / 60, TTL).is_some());
}

#[test]
fn corrupt_cache_is_a_miss_not_a_failure() {
    assert!(read(None, 20, ROOT, NOW, TTL).is_none());
}

#[test]
fn a_future_stamped_cache_is_stale() {
    let file = record(ROOT, NOW + 48 * HOUR, Some(&sample()));
    assert!(read(Some(&file), 400, ROOT, NOW, TTL).is_none());
}

#[test]
fn a_cache_from_another_registry_is_a_miss() {
    let none: Vec<RegistryPlugin> = vec![];
    let file = record("https://other.example/api/v1", NOW, Some(&none));
    assert!(
        read(Some(&file), 100, ROOT, NOW, TTL).is_none(),
        "a cache written against a different registry must not answer for this one"
    );
}

#[test]
fn wrong_schema_is_a_miss() {
    let file = CacheFile {
        schema: 99,
        registry_root: ROOT.to_owned(),
        fetched_at: NOW,
        plugins: Some(vec![]),
    };
    assert!(read(Some(&file), 100, ROOT, NOW, TTL).is_none());
    assert_ne!(CACHE_SCHEMA, 99);
}

#[test]
fn absent_registry_round_trips_distinctly_from_empty() {
    let absent = record(ROOT, NOW, None);
    assert_eq!(read(Some(&absent), 100, ROOT, NOW, TTL), Some(None));

    let none: Vec<RegistryPlugin> = vec![];
    let empty = record(ROOT, NOW, Some(&none));
    assert_eq!(read(Some(&empty), 100, ROOT, NOW, TTL), Some(Some(vec![])));
}

#[test]
fn an_oversized_cache_file_is_refused() {
    let file = record(ROOT, NOW, Some(&sample()));
    assert!(read(Some(&file), MAX_CACHE_BYTES + 1, ROOT, NOW, TTL).is_none());
    assert!(read(Some(&file), MAX_CACHE_BYTES, ROOT, NOW, TTL).is_some());
}

#[test]
fn a_version_that_does_not_parse_is_dropped_from_the_cache() {
    let mut file = record(ROOT, NOW, Some(&sample()));
    file.plugins.as_mut().unwrap()[0].latest = Some("not-a-version".to_owned());
    let plugins = read(Some(&file), 400, ROOT, NOW, TTL).unwrap().unwrap();
    assert_eq!(plugins[0].latest, None);
}

#[test]
fn a_temp_file_is_named_after_the_process_and_the_attempt() {
    assert_eq!(temp_name(4711, 3), ".registry-cache.json.tmp4711-3");
}

// ---- Versions ----

#[test]
fn versions_order_by_precedence_not_by_text() {
    assert!(version("0.10.0").newer_than(&version("0.9.0")));
    assert!(!version("0.9.0").newer_than(&version("0.10.0")));
    assert!(version("1.0.0").newer_than(&version("1.0.0-rc.1")));
    assert!(version("1.0.0-rc.1").is_prerelease());
    assert!(!version("1.0.0+a-b").is_prerelease());
    assert!(Version::parse("1.0").is_none());
    assert_eq!(version("1.2.3").as_str(), "1.2.3");
}

// ---- The roots ----

/// A throwaway self-signed certificate, only ever parsed.
const SELF_SIGNED_PEM: &str = "-----BEGIN CERTIFICATE-----\n\
MIIBhDCCASugAwIBAgIUbN3reOdgv7zCeE6MSKbUbu/ux0IwCgYIKoZIzj0EAwIw\n\
GDEWMBQGA1UEAwwNY2xvdmUtdGVzdC1jYTAeFw0yNjA4MjgxMDM0MTFaFw0zNjA4\n\
MjUxMDM0MTFaMBgxFjAUBgNVBAMMDWNsb3ZlLXRlc3QtY2EwWTATBgcqhkjOPQIB\n\
BggqhkjOPQMBBwNCAAQ019MLglYI2yKiibKXEg8N7xCpOAQN0kxIcdu9+EOvcyzi\n\
YnS5vtMW4IEnvDJHoYTLuI9tNlbZJ1H3vybg04+lo1MwUTAdBgNVHQ4EFgQUiyh/\n\
t+D4Lb7f3rGDhzEmbLHnShEwHwYDVR0jBBgwFoAUiyh/t+D4Lb7f3rGDhzEmbLHn\n\
ShEwDwYDVR0TAQH/BAUwAwEB/zAKBggqhkjOPQQDAgNHADBEAiA2C9G6KQ9ExCVz\n\
C4UV47ZnXdr8UQNzJLnRZWNCU44+iQIgJGPGcxqHPKOvdDP/uZg/N0UUTO1rS0LC\n\
X5fIM+2FHJc=\n\
-----END CERTIFICATE-----\n";

#[test]
fn an_environment_ca_bundle_adds_to_the_bundled_roots_and_never_narrows_them() {
    let bundled = || -> Vec<Vec<u8>> {
        webpki_root_certs::TLS_SERVER_ROOT_CERTS.iter().map(|der| der.as_ref().to_vec()).collect()
    };
    let baseline = root_certificates(bundled(), None).len();
    assert!(baseline > 0, "the bundled roots must be present");
    assert_eq!(baseline, bundled().len());

    // What is not PEM at all contributes nothing, and takes nothing.
    let garbage = b"this is not a certificate".to_vec();
    assert_eq!(
        root_certificates(bundled(), Some(&garbage)).len(),
        baseline,
        "an unparseable bundle must not reduce the trust set"
    );

    // A real bundle is added to the built-in roots, not swapped for them.
    let extra = SELF_SIGNED_PEM.as_bytes().to_vec();
    let roots = root_certificates(bundled(), Some(&extra));
    assert_eq!(roots.len(), baseline + 1, "an environment CA must extend the trust set");
    assert_eq!(roots[..baseline], bundled()[..]);

    // Two certificates with something else between them are both taken, in their order.
    let twice = format!("{SELF_SIGNED_PEM}what is this\n{SELF_SIGNED_PEM}").into_bytes();
    let roots = root_certificates(bundled(), Some(&twice));
    assert_eq!(roots.len(), baseline + 2);
    assert_eq!(roots[baseline], roots[baseline + 1]);
}
