//! The home of clove, exit codes, formats, authors, help interception and health.

use clove::clove_home::{bin_dir, clove_home, Environment};
use clove::cmd::comments::{git_config_value, render_list, resolve_author, window, Comment};
use clove::cmd::daemon::daemon_err;
use clove::cmd::doctor::{daemon_issue, index_checks, legacy_daemon_issue, DaemonHealth, DoctorReport, IndexState, Severity};
use clove::error::{error_code, CloveError};
use clove::exit::{classify, ExitCode};
use clove::mux_help::detect;
use clove::output::{emit_error, failure_envelope, resolve_format, Out, OutputFormat};

// ---- The home -----------------------------------------------------------------

fn env(clove_home: Option<&str>, xdg: Option<&str>, home: Option<&str>) -> Environment {
    Environment {
        windows: false,
        clove_home: clove_home.map(str::to_owned),
        xdg_data_home: xdg.map(str::to_owned),
        appdata: None,
        home: home.map(str::to_owned),
    }
}

#[test]
fn clove_home_override_wins() {
    let e = env(Some("/tmp/explicit-root"), Some("/tmp/xdg"), None);
    assert_eq!(clove_home(&e).unwrap(), "/tmp/explicit-root");
}

#[test]
fn clove_home_uses_xdg_when_set() {
    let e = env(None, Some("/tmp/xdg"), None);
    assert_eq!(clove_home(&e).unwrap(), "/tmp/xdg/clove");
}

#[test]
fn empty_env_var_is_treated_as_absent() {
    let e = env(Some(""), Some("/tmp/xdg"), None);
    assert_eq!(clove_home(&e).unwrap(), "/tmp/xdg/clove");
}

#[test]
fn unix_default_is_xdg_style_never_dot_clove() {
    let e = env(None, None, Some("/home/someone"));
    assert_eq!(clove_home(&e).unwrap(), "/home/someone/.local/share/clove");
    assert_eq!(
        bin_dir(&e).unwrap(),
        "/home/someone/.local/share/clove/bin"
    );
}

#[test]
fn clove_home_is_never_a_repository_marker() {
    for windows in [false, true] {
        let e = Environment {
            windows,
            clove_home: None,
            xdg_data_home: None,
            appdata: Some(r"C:\Users\someone\AppData\Roaming".to_owned()),
            home: Some("/home/someone".to_owned()),
        };
        let home = clove_home(&e).unwrap();
        for part in home.split(|c| c == '/' || c == '\\') {
            assert_ne!(part, ".clove", "found in {home}");
        }
    }
}

#[test]
fn home_dir_error_names_the_callers_field() {
    let e = env(None, None, None);
    match e.home_dir("CLOVE_HOME").unwrap_err() {
        CloveError::InvalidField { field, .. } => assert_eq!(field, "CLOVE_HOME"),
        other => panic!("expected InvalidField, got {other:?}"),
    }
}

#[test]
fn a_machine_without_a_home_has_no_clove_home() {
    let e = env(None, None, None);
    match clove_home(&e).unwrap_err() {
        CloveError::InvalidField { field, reason } => {
            assert_eq!(field, "CLOVE_HOME");
            assert!(reason.contains("$HOME is not set"), "{reason}");
        }
        other => panic!("expected InvalidField, got {other:?}"),
    }
    assert_eq!(bin_dir(&e), None);
}

// ---- Authors ------------------------------------------------------------------

fn s(v: &str) -> Option<String> {
    Some(v.to_owned())
}

#[test]
fn clove_author_wins_over_everything() {
    let got = resolve_author(
        s("clove-me"),
        s("git@ex"),
        s("cfg@ex"),
        s("Cfg Name"),
        s("login"),
    );
    assert_eq!(got, "clove-me");
}

#[test]
fn falls_back_through_the_chain_in_order() {
    assert_eq!(
        resolve_author(None, s("git@ex"), s("cfg@ex"), s("Cfg Name"), s("login")),
        "git@ex"
    );
    assert_eq!(
        resolve_author(None, None, s("cfg@ex"), s("Cfg Name"), s("login")),
        "cfg@ex"
    );
    assert_eq!(
        resolve_author(None, None, None, s("Cfg Name"), s("login")),
        "Cfg Name"
    );
    assert_eq!(resolve_author(None, None, None, None, s("login")), "login");
}

#[test]
fn blank_sources_are_skipped_not_selected() {
    assert_eq!(
        resolve_author(s("   "), None, s("cfg@ex"), None, None),
        "cfg@ex"
    );
}

#[test]
fn unknown_only_when_all_sources_empty() {
    assert_eq!(resolve_author(None, None, None, None, None), "unknown");
    assert_eq!(resolve_author(s(""), s("  "), None, None, s("")), "unknown");
}

#[test]
fn a_failed_git_config_names_nobody() {
    assert_eq!(git_config_value(false, s("me@ex\n")), None);
    assert_eq!(git_config_value(true, s("me@ex\n")), s("me@ex"));
    assert_eq!(git_config_value(true, s(" \n")), None);
    assert_eq!(git_config_value(true, None), None);
}

#[test]
fn comments_keep_the_newest_and_page_back() {
    assert_eq!(window(250, None, None), (150, 250));
    assert_eq!(window(250, Some(0), None), (0, 250));
    assert_eq!(window(250, Some(10), Some(5)), (235, 245));
    assert_eq!(window(3, Some(10), Some(5)), (0, 0));
    let thread: Vec<Comment> = (0..3)
        .map(|i| Comment {
            author: "me".to_owned(),
            timestamp: format!("2024-01-0{}", i + 1),
            body: format!("c{i}"),
        })
        .collect();
    let out = render_list(OutputFormat::Json, &thread, Some(2), None);
    let text = out[0].line();
    assert!(text.contains("c1") && text.contains("c2") && !text.contains("c0"));
    assert!(text.contains("\"total\":3"));
}

// ---- Exit codes ---------------------------------------------------------------

#[test]
fn not_found_maps_to_exit_2() {
    let err = CloveError::NotFound {
        id: "proj-00000000".to_owned(),
    };
    let (code, name) = classify(&err);
    assert_eq!(code, ExitCode::NotFound);
    assert_eq!(code.code(), 2);
    assert_eq!(name, "ITEM_NOT_FOUND");
}

#[test]
fn validation_errors_map_to_exit_4() {
    let err = CloveError::InvalidField {
        field: "priority".to_owned(),
        reason: "out of range".to_owned(),
    };
    assert_eq!(classify(&err).0, ExitCode::Validation);
}

#[test]
fn io_maps_to_exit_5() {
    let err = CloveError::Io {
        path: "/x".to_owned(),
        source: "boom".to_owned(),
    };
    assert_eq!(classify(&err).0, ExitCode::Io);
}

#[test]
fn daemon_failures_classify_as_exit_7() {
    let err = daemon_err("status query failed");
    assert_eq!(
        error_code(&err),
        ("DAEMON_ERROR".to_owned(), 7),
        "daemon failures must not be reported as filesystem errors"
    );
    assert_eq!(classify(&err).0.code(), 7);
}

#[test]
fn each_error_has_its_exit_code() {
    let id = || "a-1".to_owned();
    let cases: Vec<(CloveError, u8)> = vec![
        (
            CloveError::NoRepo {
                searched: "/x".to_owned(),
            },
            5,
        ),
        (
            CloveError::Registry {
                message: "down".to_owned(),
            },
            5,
        ),
        (
            CloveError::DependencyCycle {
                from: id(),
                to: id(),
                cycle: vec![id()],
            },
            3,
        ),
        (
            CloveError::Remote {
                code: "X".to_owned(),
                exit: 6,
                message: "m".to_owned(),
            },
            6,
        ),
        (
            CloveError::Remote {
                code: "X".to_owned(),
                exit: 99,
                message: "m".to_owned(),
            },
            5,
        ),
    ];
    for (error, exit) in cases {
        assert_eq!(classify(&error).0.code(), exit, "{error:?}");
    }
}

// ---- Output -------------------------------------------------------------------

#[test]
fn error_envelope_shape() {
    let err = CloveError::NotFound {
        id: "proj-00000000".to_owned(),
    };
    let (exit, code) = classify(&err);
    let envelope = failure_envelope(&code, &err.to_string(), exit.code());
    assert_eq!(envelope.get("ok").and_then(|v| v.as_bool()), Some(false));
    let error = envelope.get("error").unwrap();
    assert_eq!(
        error.get("code").and_then(|v| v.as_str()),
        Some("ITEM_NOT_FOUND")
    );
    assert_eq!(error.get("exit").and_then(|v| v.as_u64()), Some(2));
    assert_eq!(envelope.get("v").and_then(|v| v.as_u64()), Some(1));

    let (out, printed) = emit_error(OutputFormat::Json, &err, true);
    assert_eq!(printed, ExitCode::NotFound);
    assert_eq!(out, vec![Out::Json(envelope)]);
}

#[test]
fn quiet_silences_people_but_not_programs() {
    let err = CloveError::NotFound {
        id: "proj-1".to_owned(),
    };
    assert!(emit_error(OutputFormat::Human, &err, true).0.is_empty());
    let (out, _) = emit_error(OutputFormat::Human, &err, false);
    assert!(!out[0].on_stdout());
    assert!(out[0].line().starts_with("error: "));
    assert_eq!(emit_error(OutputFormat::Jsonl, &err, true).0.len(), 1);
}

#[test]
fn resolve_format_prefers_flag() {
    assert_eq!(
        resolve_format(Some(OutputFormat::Json), None, Some(OutputFormat::Human)),
        OutputFormat::Json
    );
}

#[test]
fn resolve_format_falls_back_to_config_then_human() {
    assert_eq!(
        resolve_format(None, None, Some(OutputFormat::Jsonl)),
        OutputFormat::Jsonl
    );
    assert_eq!(resolve_format(None, None, None), OutputFormat::Human);
}

#[test]
fn the_environment_comes_between_the_flag_and_the_config() {
    assert_eq!(
        resolve_format(None, Some("json"), Some(OutputFormat::Jsonl)),
        OutputFormat::Json
    );
    assert_eq!(
        resolve_format(None, Some("nonsense"), Some(OutputFormat::Jsonl)),
        OutputFormat::Jsonl
    );
}

// ---- Help ---------------------------------------------------------------------

fn argv(items: &[&str]) -> Vec<String> {
    std::iter::once("clove".to_owned())
        .chain(items.iter().map(|i| (*i).to_owned()))
        .collect()
}

#[test]
fn intercepts_bare_mux_help() {
    assert_eq!(detect(&argv(&["import", "--help"])), Some("import"));
    assert_eq!(detect(&argv(&["import", "-h"])), Some("import"));
    assert_eq!(detect(&argv(&["export", "--help"])), Some("export"));
    assert_eq!(detect(&argv(&["sync", "--help"])), Some("sync"));
}

#[test]
fn does_not_intercept_provider_help() {
    assert_eq!(detect(&argv(&["import", "tk", "--help"])), None);
    assert_eq!(detect(&argv(&["sync", "github", "--help"])), None);
}

#[test]
fn does_not_intercept_top_level_help() {
    assert_eq!(detect(&argv(&["--help"])), None);
    assert_eq!(detect(&argv(&["-h"])), None);
    assert_eq!(detect(&argv(&[])), None);
}

#[test]
fn does_not_intercept_non_help_mux() {
    assert_eq!(detect(&argv(&["import"])), None);
    assert_eq!(detect(&argv(&["import", "tk"])), None);
}

#[test]
fn skips_a_value_global_before_the_mux() {
    assert_eq!(
        detect(&argv(&["--clove-dir", "X", "import", "--help"])),
        Some("import")
    );
    assert_eq!(
        detect(&argv(&["-f", "json", "import", "--help"])),
        Some("import")
    );
    assert_eq!(
        detect(&argv(&["--format", "json", "sync", "--help"])),
        Some("sync")
    );
    assert_eq!(
        detect(&argv(&["--format=json", "export", "--help"])),
        Some("export")
    );
}

#[test]
fn skips_a_bool_global_before_the_mux() {
    assert_eq!(
        detect(&argv(&["--quiet", "import", "--help"])),
        Some("import")
    );
    assert_eq!(
        detect(&argv(&["--no-index", "--deep", "sync", "--help"])),
        Some("sync")
    );
}

// ---- Health -------------------------------------------------------------------

#[test]
fn daemon_issue_maps_each_health_state() {
    assert!(daemon_issue(DaemonHealth::Absent).is_none());
    assert!(daemon_issue(DaemonHealth::Healthy).is_none());

    let dead = daemon_issue(DaemonHealth::Dead).unwrap();
    assert_eq!(dead.code, "DAEMON_STALE_SOCKET");
    assert_eq!(dead.severity, Severity::Warning);
    assert!(dead.fixable);

    let skew = daemon_issue(DaemonHealth::Incompatible).unwrap();
    assert_eq!(skew.code, "DAEMON_VERSION_SKEW");
    assert_eq!(skew.severity, Severity::Warning);
    assert!(!skew.fixable);
}

#[test]
fn an_old_daemon_that_lives_is_left_alone() {
    assert!(legacy_daemon_issue(false, false, Some(7)).is_none());
    let alive = legacy_daemon_issue(true, false, Some(7)).unwrap();
    assert_eq!(alive.code, "DAEMON_LEGACY");
    assert!(!alive.fixable && alive.message.contains("(pid 7)"));
    assert!(legacy_daemon_issue(false, true, None).unwrap().fixable);
}

#[test]
fn index_states_map_to_findings() {
    let code = |s: IndexState| index_checks(&s).map(|i| (i.code, i.severity));
    assert_eq!(
        code(IndexState::Opened {
            fault: None,
            changes: 0
        }),
        None
    );
    assert_eq!(
        code(IndexState::Opened {
            fault: None,
            changes: 3
        }),
        Some(("INDEX_DIVERGENCE".to_owned(), Severity::Warning))
    );
    assert_eq!(
        code(IndexState::Opened {
            fault: Some("row 4".to_owned()),
            changes: 3
        }),
        Some(("INDEX_CORRUPT".to_owned(), Severity::Error))
    );
    assert_eq!(
        code(IndexState::SchemaMismatch {
            found: 5,
            expected: 6
        }),
        Some(("INDEX_SCHEMA_MISMATCH".to_owned(), Severity::Warning))
    );
    assert_eq!(
        code(IndexState::Unreadable),
        Some(("INDEX_UNREADABLE".to_owned(), Severity::Warning))
    );
}

#[test]
fn doctor_repairs_what_it_may_and_reports_the_rest() {
    let mut report = DoctorReport {
        checked: 4,
        issues: vec![],
        fixed: 0,
    };
    assert!(report.absorb(daemon_issue(DaemonHealth::Dead), true));
    assert!(!report.absorb(daemon_issue(DaemonHealth::Incompatible), true));
    assert!(!report.absorb(daemon_issue(DaemonHealth::Healthy), true));
    assert!(!report.absorb(index_checks(&IndexState::Corrupt("bad".to_owned())), false));
    assert_eq!((report.fixed, report.errors(), report.warnings()), (1, 1, 1));
    assert_eq!(report.exit(true), ExitCode::Validation);
    assert_eq!(report.exit(false), ExitCode::Success);
    let lines = report.emit(OutputFormat::Human);
    assert_eq!(
        lines.last().unwrap().line(),
        "checked 4, 1 error(s), 1 warning(s), 1 fixed"
    );
    let json = report.emit(OutputFormat::Json);
    assert!(json[0]
        .line()
        .contains("\"summary\":{\"checked\":4,\"errors\":1,\"fixed\":1,\"warnings\":1}"));
}
