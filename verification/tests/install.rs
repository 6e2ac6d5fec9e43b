//! What stands between a crate and an installed plugin.

use clove::registry::git_source;
use clove::registry::git_source::{
    choose_ref, commit_printed, plugins_from_metadata, select, unpinned_warning,
    validate_git_ref, validate_git_url, GitRef,
};
use clove::registry::install::{
    cargo_failure, cargo_install_argv, cargo_missing, cargo_uninstall_argv, confirmed,
    consent_policy, dispatchable_bin, evaluate, foreign_install_message, git_prompt_text,
    prompt_text, rollback_argv, updatable_from_registry, update_line, update_verdict, Consent,
    DependsOnPlugin, Hold, UpdateVerdict,
};
use clove::registry::provenance::{Installed, Source};
use clove::registry::{validate_bin_name, RegistryPlugin};
use clove::json::Json;
use clove::version::Version;

fn version(text: &str) -> Version {
    Version::parse(text).unwrap()
}

fn candidate(name: &str, bins: &[&str]) -> RegistryPlugin {
    RegistryPlugin {
        crate_name: name.to_owned(),
        latest: Some(version("0.2.0")),
        latest_prerelease: None,
        latest_yanked: None,
        description: Some("a plugin".to_owned()),
        repository: Some("https://example.com/p".to_owned()),
        bin_names: bins.iter().map(|b| (*b).to_owned()).collect(),
        published_by: Some("someone".to_owned()),
        downloads: 41,
    }
}

fn names(list: &[&str]) -> Vec<String> {
    list.iter().map(|s| (*s).to_owned()).collect()
}

#[test]
fn a_crate_the_registry_disowns_is_refused() {
    let c = candidate("clove-sync-evil", &["clove-sync-evil"]);
    let gates = evaluate(&c, Some(&names(&["clove-sync-gitlab"])));
    assert_eq!(gates.depends_on_plugin, DependsOnPlugin::NotADependent);
    assert!(gates.blocking_reason(false).is_some());
}

#[test]
fn an_unverifiable_dependency_is_not_fatal_unless_strict() {
    let c = candidate("clove-sync-gitlab", &["clove-sync-gitlab"]);
    let gates = evaluate(&c, None);
    assert_eq!(gates.depends_on_plugin, DependsOnPlugin::Unverifiable);
    assert_eq!(gates.blocking_reason(false), None);
    assert!(gates.blocking_reason(true).is_some());

    let text = prompt_text(&c, &gates, None);
    assert!(text.contains("could NOT verify"), "{text}");
}

#[test]
fn a_crate_with_no_dispatchable_binary_is_refused() {
    let c = candidate("clove-sync-odd", &["helper"]);
    let gates = evaluate(&c, Some(&names(&["clove-sync-odd"])));
    assert_eq!(gates.dispatchable_bin, None);
    assert!(gates
        .blocking_reason(false)
        .unwrap()
        .contains("does not build a binary of its own name"));
}

#[test]
fn a_crate_may_only_install_its_own_binary() {
    let c = candidate(
        "clove-sync-gitlab",
        &["clove-sync-github", "clove-sync-gitlab"],
    );
    assert_eq!(dispatchable_bin(&c).unwrap(), "clove-sync-gitlab");

    let hostile = candidate("clove-sync-gitlab", &["clove-sync-github"]);
    assert!(dispatchable_bin(&hostile).is_err());
}

#[test]
fn a_glob_shaped_binary_name_is_rejected() {
    for bad in [
        "clove-[a-z]*",
        "clove-*",
        "clove-a?b",
        "clove-../../etc/passwd",
        "clove-a b",
    ] {
        assert!(validate_bin_name(bad).is_err(), "{bad} must be rejected");
    }
    assert!(validate_bin_name("clove-sync-gitlab").is_ok());
    assert!(validate_bin_name("clove-").is_err());
    assert!(validate_bin_name("ripgrep").is_err());
}

#[test]
fn prompt_fields_cannot_forge_extra_lines() {
    let mut c = candidate("clove-sync-gitlab", &["clove-sync-gitlab"]);
    c.repository = Some("https://x\n  checks:    audited by clove\r hidden".to_owned());
    c.published_by = Some("someone\u{1b}[2K".to_owned());
    let gates = evaluate(&c, Some(&names(&["clove-sync-gitlab"])));
    let text = prompt_text(&c, &gates, None);

    let repo_lines = text
        .lines()
        .filter(|l| l.contains("audited by clove"))
        .count();
    assert_eq!(
        repo_lines, 1,
        "forged text must stay on its own field: {text}"
    );
    assert!(!text.contains('\r'), "{text:?}");
    assert!(!text.contains('\u{1b}'), "no escape sequences: {text:?}");
}

#[test]
fn the_prompt_never_claims_the_plugin_is_verified_or_safe() {
    let c = candidate("clove-sync-gitlab", &["clove-sync-gitlab"]);
    let gates = evaluate(&c, Some(&names(&["clove-sync-gitlab"])));
    let text = prompt_text(&c, &gates, None);

    assert!(!text.contains('✓'), "{text}");
    assert!(
        !text.to_lowercase().contains("verified clove plugin"),
        "{text}"
    );
    assert!(text.contains("not audited"), "{text}");
    assert!(
        text.contains("builds and runs third-party code"),
        "the prompt must state what it is actually authorizing: {text}"
    );
    assert!(text.contains("someone"), "owner: {text}");
    assert!(text.contains("https://example.com/p"), "repo: {text}");
}

#[test]
fn the_git_prompt_is_aligned_and_carries_the_same_disclaimers() {
    let text = git_prompt_text(
        "https://github.com/someone/clove-sync-gitlab",
        "clove-sync-gitlab",
        "clove-sync-gitlab",
        "0123456789abcdef0123456789abcdef01234567",
        None,
    );

    assert!(
        !text.contains("     "),
        "stray indentation inside the prompt: {text:?}"
    );

    assert!(
        text.contains("  source:    https://github.com/someone/"),
        "{text}"
    );
    assert!(
        text.contains("  commit:    0123456789abcdef"),
        "the prompt must name the tree cargo will build: {text}"
    );
    assert!(text.contains("  installs:  clove-sync-gitlab"), "{text}");
    assert!(text.contains("not audited"), "{text}");
    assert!(
        text.contains("builds and runs third-party code"),
        "the git path authorizes the same thing the registry path does: {text}"
    );
    assert!(!text.contains('✓'), "{text}");
}

#[test]
fn the_git_prompt_sanitizes_names_read_from_a_foreign_manifest() {
    let text = git_prompt_text(
        "https://example.com/r",
        "evil\n  checks:    audited by clove",
        "b\r\u{1b}[2K",
        "0123456789abcdef0123456789abcdef01234567",
        None,
    );
    assert_eq!(
        text.lines()
            .filter(|l| l.contains("audited by clove"))
            .count(),
        1,
        "forged text must stay on its own field: {text}"
    );
    assert!(!text.contains('\r'), "{text:?}");
    assert!(!text.contains('\u{1b}'), "{text:?}");
}

#[test]
fn a_non_interactive_run_refuses_rather_than_proceeding() {
    assert_eq!(
        consent_policy(false, true, false, true),
        Consent::Refuse,
        "no stdin tty"
    );
    assert_eq!(
        consent_policy(false, true, true, false),
        Consent::Refuse,
        "no stderr tty"
    );
    assert_eq!(
        consent_policy(false, false, true, true),
        Consent::Refuse,
        "a JSON run is automation; a prompt would corrupt the envelope"
    );
    assert_eq!(consent_policy(true, false, false, false), Consent::Granted);
    assert_eq!(consent_policy(false, true, true, true), Consent::Ask);
}

#[test]
fn the_consent_matrix_is_total() {
    for yes in [false, true] {
        for human in [false, true] {
            for stdin_tty in [false, true] {
                for stderr_tty in [false, true] {
                    let got = consent_policy(yes, human, stdin_tty, stderr_tty);
                    let want = if yes {
                        Consent::Granted
                    } else if human && stdin_tty && stderr_tty {
                        Consent::Ask
                    } else {
                        Consent::Refuse
                    };
                    assert_eq!(
                        got, want,
                        "consent_policy(yes={yes}, human={human}, \
                         stdin_tty={stdin_tty}, stderr_tty={stderr_tty})"
                    );
                    if got == Consent::Ask {
                        assert!(human, "a prompt would corrupt a machine-readable envelope");
                    }
                }
            }
        }
    }
}

#[test]
fn only_a_spoken_yes_confirms() {
    assert!(confirmed(Some("y\n")));
    assert!(confirmed(Some("YES")));
    assert!(!confirmed(Some("")));
    assert!(!confirmed(Some("yeah")));
    assert!(!confirmed(None));
}

#[test]
fn install_argv_pins_the_version_and_the_single_binary() {
    let root = "/home/u/.local/share/clove";
    let argv = cargo_install_argv(
        "clove-sync-gitlab",
        Some("0.2.0"),
        "clove-sync-gitlab",
        root,
        false,
    );

    let bin_at = argv
        .iter()
        .position(|a| a == "--bin")
        .expect("--bin present");
    assert_eq!(argv[bin_at + 1], "clove-sync-gitlab");

    let ver_at = argv
        .iter()
        .position(|a| a == "--version")
        .expect("--version");
    assert_eq!(argv[ver_at + 1], "=0.2.0");

    assert!(argv.contains(&"--locked".to_owned()));
    assert_eq!(argv.last().unwrap(), "clove-sync-gitlab");
    assert!(!argv.contains(&"--force".to_owned()));
}

#[test]
fn uninstall_takes_the_package_name_not_the_binary() {
    let argv = cargo_uninstall_argv("clove-plugin-echo", "/root");
    assert_eq!(argv.last().unwrap(), "clove-plugin-echo");
    assert!(argv.contains(&"--root".to_owned()));
}

#[test]
fn rollback_removes_the_package_that_failed_its_probe() {
    assert_eq!(
        rollback_argv("clove-sync-bad", "/root"),
        cargo_uninstall_argv("clove-sync-bad", "/root"),
        "a refused plugin must be removed, not left on the search path"
    );
}

#[test]
fn a_failed_cargo_is_reported_with_its_exit() {
    assert_eq!(
        cargo_failure("install", Some(101)).to_string(),
        "`cargo install` failed (exit 101)"
    );
    assert_eq!(
        cargo_failure("install", Some(-1)).to_string(),
        "`cargo install` failed (exit -1)"
    );
    assert_eq!(
        cargo_failure("uninstall", None).to_string(),
        "`cargo uninstall` was terminated by a signal"
    );
    assert!(cargo_missing().to_string().contains("rustup.rs"));
}

#[test]
fn update_only_re_resolves_registry_installs() {
    let git = Installed {
        package: "clove-sync-x".to_owned(),
        version: "0.1.0".to_owned(),
        source: Source::Git {
            url: "https://e.com/x".to_owned(),
            reference: None,
        },
        bins: vec!["clove-sync-x".to_owned()],
    };
    assert!(!updatable_from_registry(&git));
    assert!(update_line(&git, &update_verdict(&git, None)).contains("git https://e.com/x"));

    let reg = Installed {
        package: "clove-sync-gitlab".to_owned(),
        version: "0.1.0".to_owned(),
        source: Source::Registry,
        bins: vec!["clove-sync-gitlab".to_owned()],
    };
    assert!(updatable_from_registry(&reg));
    let newer = candidate("clove-sync-gitlab", &["clove-sync-gitlab"]);
    assert_eq!(
        update_line(&reg, &update_verdict(&reg, Some(&newer))),
        "  clove-sync-gitlab 0.1.0 → 0.2.0",
        "update must show what it would change before doing it"
    );
}

fn candidate_at(name: &str, at: &str) -> RegistryPlugin {
    let mut c = candidate(name, &[name]);
    let parsed = version(at);
    if !parsed.is_prerelease() {
        c.latest = Some(parsed);
        c.latest_prerelease = None;
    } else {
        c.latest = None;
        c.latest_prerelease = Some(parsed);
    }
    c
}

fn installed_at(version: &str) -> Installed {
    Installed {
        package: "clove-sync-gitlab".to_owned(),
        version: version.to_owned(),
        source: Source::Registry,
        bins: vec!["clove-sync-gitlab".to_owned()],
    }
}

#[test]
fn an_update_moves_only_to_a_strictly_greater_stable_version() {
    let installed = installed_at("1.2.0");

    assert_eq!(
        update_verdict(
            &installed,
            Some(&candidate_at("clove-sync-gitlab", "1.3.0"))
        ),
        UpdateVerdict::Newer("1.3.0".to_owned())
    );
    assert_eq!(
        update_verdict(
            &installed,
            Some(&candidate_at("clove-sync-gitlab", "1.2.0"))
        ),
        UpdateVerdict::Hold(Hold::UpToDate)
    );
    assert_eq!(
        update_verdict(
            &installed,
            Some(&candidate_at("clove-sync-gitlab", "1.1.0"))
        ),
        UpdateVerdict::Hold(Hold::RegistryBehind("1.1.0".to_owned()))
    );

    let ten = installed_at("0.10.0");
    assert_eq!(
        update_verdict(&ten, Some(&candidate_at("clove-sync-gitlab", "0.9.0"))),
        UpdateVerdict::Hold(Hold::RegistryBehind("0.9.0".to_owned()))
    );
    assert_eq!(
        update_verdict(
            &installed,
            Some(&candidate_at("clove-sync-gitlab", "2.0.0-alpha.1"))
        ),
        UpdateVerdict::Hold(Hold::PrereleaseOnly("2.0.0-alpha.1".to_owned()))
    );

    let odd = installed_at("not-a-version");
    assert_eq!(
        update_verdict(&odd, Some(&candidate_at("clove-sync-gitlab", "1.3.0"))),
        UpdateVerdict::Hold(Hold::LocalUnparseable)
    );
}

#[test]
fn the_update_plan_cannot_forge_its_own_lines() {
    let forged = Installed {
        package: "clove-sync-gitlab".to_owned(),
        version: "1.0.0\u{1b}[2K\r  clove-sync-github 9.9.9 (up to date)".to_owned(),
        source: Source::Registry,
        bins: vec!["clove-sync-gitlab".to_owned()],
    };
    let line = update_line(&forged, &UpdateVerdict::Hold(Hold::UpToDate));
    assert!(!line.contains('\r'), "{line:?}");
    assert!(!line.contains('\u{1b}'), "{line:?}");
    assert_eq!(line.lines().count(), 1, "one package, one line: {line:?}");
}

#[test]
fn a_plugin_installed_outside_the_root_is_named_not_mangled() {
    let msg = foreign_install_message(
        "sync-github",
        "/home/u/.cargo/bin/clove-sync-github",
        "/home/u/.local/share/clove",
    );
    assert!(msg.contains(".cargo/bin"));
    assert!(msg.contains("cargo uninstall"), "must say how to remove it");
}

#[test]
fn a_yanked_resolution_is_visible_in_the_gates() {
    let mut c = candidate("clove-sync-gone", &["clove-sync-gone"]);
    c.latest = None;
    c.latest_yanked = Some(version("0.3.0"));
    let gates = evaluate(&c, Some(&names(&["clove-sync-gone"])));
    assert!(gates.yanked);
    assert_eq!(gates.version.as_deref(), Some("0.3.0"));
}

// ---- git ----

#[test]
fn a_flag_shaped_git_url_is_refused() {
    for url in [
        "--upload-pack=/bin/sh",
        "--template=/tmp/evil",
        "--config=protocol.ext.allow=always",
        "-c",
    ] {
        let err = validate_git_url(url).unwrap_err();
        let message = err.to_string();
        assert!(
            message.contains("cannot start with `-`"),
            "{url}: {message}"
        );
    }
}

#[test]
fn the_ext_transport_is_refused_explicitly() {
    assert!(validate_git_url("ext::sh -c 'id'").is_err());
    assert!(
        validate_git_url("EXT::sh -c 'id'").is_err(),
        "case-insensitive"
    );
}

#[test]
fn ordinary_git_urls_are_accepted() {
    for url in [
        "https://github.com/o/r",
        "http://internal/r.git",
        "ssh://git@host/o/r.git",
        "git://host/r.git",
        "file:///srv/r.git",
        "git@github.com:o/r.git",
    ] {
        assert!(validate_git_url(url).is_ok(), "{url} should be accepted");
    }
}

#[test]
fn an_unknown_scheme_is_refused() {
    assert!(validate_git_url("javascript:alert(1)").is_err());
    assert!(validate_git_url("/etc/passwd").is_err());
    assert!(validate_git_url("").is_err());
    assert!(validate_git_url("https://host/a\nb").is_err());
}

#[test]
fn refs_are_validated_too() {
    assert!(validate_git_ref("--tag", "v1.0.0").is_ok());
    assert!(validate_git_ref("--rev", "abc123").is_ok());
    assert!(validate_git_ref("--tag", "--upload-pack=x").is_err());
    assert!(validate_git_ref("--tag", "").is_err());
    assert!(validate_git_ref("--tag", "a b").is_err());
}

#[test]
fn a_tag_outranks_a_revision_and_a_branch() {
    let tag = Some("v1".to_owned());
    let rev = Some("abc".to_owned());
    assert_eq!(
        choose_ref(&tag, &rev, &None).unwrap(),
        Some(GitRef::Tag("v1".to_owned()))
    );
    assert_eq!(choose_ref(&None, &None, &None).unwrap(), None);
    assert!(choose_ref(&None, &None, &Some("-x".to_owned())).is_err());
    assert_eq!(
        GitRef::Branch("main".to_owned()).cargo_args(),
        ["--branch".to_owned(), "main".to_owned()]
    );
}

#[test]
fn only_a_whole_commit_id_pins() {
    let sha = "0123456789abcdef0123456789abcdef01234567";
    assert_eq!(commit_printed(&format!("{sha}\n")).unwrap(), sha);
    assert!(commit_printed("HEAD").is_err());
}

fn clove_like_metadata() -> Json {
    let pkg = |name: &str, bin: &str, publish: &str| {
        format!(
            r#"{{"name":"{name}","publish":{publish},"dependencies":[{{"name":"clove-plugin"}}],
                "targets":[{{"kind":["bin"],"name":"{bin}"}}]}}"#
        )
    };
    let packages = [
        pkg("clove-sync-github", "clove-sync-github", "null"),
        pkg("clove-import-tk", "clove-import-tk", "null"),
        pkg("clove-import-beads", "clove-import-beads", "null"),
        pkg("clove-cli", "clove", "null"),
        pkg("clove-plugin-echo", "clove-echo", "[]"),
        r#"{"name":"some-lib","publish":null,"dependencies":[],
            "targets":[{"kind":["lib"],"name":"some_lib"}]}"#
            .to_owned(),
    ];
    Json::parse(&format!(r#"{{"packages":[{}]}}"#, packages.join(","))).unwrap()
}

#[test]
fn the_host_and_unpublishable_fixtures_are_not_offered_as_plugins() {
    let found = plugins_from_metadata(&clove_like_metadata());
    let names: Vec<&str> = found.iter().map(|p| p.package.as_str()).collect();

    assert_eq!(
        names,
        vec!["clove-import-beads", "clove-import-tk", "clove-sync-github"],
        "exactly the three real plugins"
    );
    assert!(!names.contains(&"clove-cli"), "the host is not a plugin");
    assert!(
        !names.contains(&"clove-plugin-echo"),
        "a publish = false fixture is not installable"
    );
}

#[test]
fn a_package_without_a_dispatchable_binary_is_skipped() {
    let metadata = Json::parse(
        r#"{"packages": [{
            "name": "clove-helper", "publish": null,
            "dependencies": [{"name": "clove-plugin"}],
            "targets": [{"kind": ["bin"], "name": "helper"}]
        }]}"#,
    )
    .unwrap();
    assert!(
        plugins_from_metadata(&metadata).is_empty(),
        "a bin not named clove-* can never be dispatched"
    );
}

#[test]
fn selection_refuses_to_guess_between_several_plugins() {
    let found = plugins_from_metadata(&clove_like_metadata());
    let err = select(&found, None).unwrap_err().to_string();
    assert!(err.contains("several"), "{err}");
    assert!(
        err.contains("--package"),
        "must say how to disambiguate: {err}"
    );

    let chosen = select(&found, Some("clove-import-tk")).unwrap();
    assert_eq!(chosen.bin, "clove-import-tk");

    let err = select(&found, Some("clove-cli")).unwrap_err().to_string();
    assert!(err.contains("clove-sync-github"), "{err}");
}

#[test]
fn a_repository_with_no_plugin_says_so() {
    let empty = Json::parse(r#"{"packages": []}"#).unwrap();
    let found = plugins_from_metadata(&empty);
    let err = select(&found, None).unwrap_err().to_string();
    assert!(err.contains("no package"), "{err}");
}

#[test]
fn install_argv_pins_the_ref_and_the_single_binary() {
    let argv = git_source::cargo_install_argv(
        "https://example.com/r",
        Some(&GitRef::Tag("v1.2.3".to_owned())),
        "clove-sync-gitlab",
        "clove-sync-gitlab",
        "/root",
        false,
    );
    assert!(argv.contains(&"--git".to_owned()));
    let tag_at = argv.iter().position(|a| a == "--tag").expect("--tag");
    assert_eq!(argv[tag_at + 1], "v1.2.3");
    let bin_at = argv.iter().position(|a| a == "--bin").expect("--bin");
    assert_eq!(argv[bin_at + 1], "clove-sync-gitlab");
    assert_eq!(argv.last().unwrap(), "clove-sync-gitlab");
}

#[test]
fn an_unpinned_install_warns_that_the_branch_moves() {
    let warning = unpinned_warning("https://example.com/r");
    assert!(warning.contains("--tag"), "{warning}");
    assert!(warning.contains("moves"), "{warning}");
}

#[test]
fn the_version_that_is_offered_cannot_forge_a_line() {
    let installed = Installed {
        package: "clove-sync-gitlab".to_owned(),
        version: "1.0.0".to_owned(),
        source: Source::Registry,
        bins: vec!["clove-sync-gitlab".to_owned()],
    };
    let forged = || "2.0.0\r  forged 9.9.9\n\u{1b}[2K (up to date)".to_owned();
    for verdict in [
        UpdateVerdict::Newer(forged()),
        UpdateVerdict::Hold(Hold::RegistryBehind(forged())),
        UpdateVerdict::Hold(Hold::PrereleaseOnly(forged())),
        UpdateVerdict::Hold(Hold::NotChecked(forged())),
    ] {
        let line = update_line(&installed, &verdict);
        assert!(!line.contains(['\r', '\n', '\u{1b}']), "{line:?}");
        assert!(line.contains("2.0.0"), "{line:?}");
    }
}
