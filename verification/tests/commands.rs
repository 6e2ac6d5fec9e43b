//! The commands: what they decide and what they print.

use clove::cli::{
    order_of, parse_format, parse_id_prefix, parse_sort_field, Commands, ExportArgs, IdArg,
    ImportArgs, InitArgs, LabelArgs, SortField, StatsArgs, StatusArgs, SyncArgs,
};
use clove::config::{config_value, id_prefix};
use clove::cmd::agent_doc::{check, check_target, extract_schema, generate, marker};
use clove::cmd::assign::assignee_of;
use clove::cmd::daemon::{
    already_serving, hub_to_stop, signal_pid, start_outcome, started, status as daemon_status, stop,
    stop_first, stop_hub, stop_next, stopped_legacy, wait_step, wait_timed_out, DetachAttempt, Detached, HubStatus,
    ProjectStatus, Reached, ServedProject, StartAttempt, StopStep, Waiting, WAIT_TIMEOUT_MS,
};
use clove::cmd::dep::{depth_of, emit_cycles, emit_tree, flatten, tree_to_json, DepTreeNode};
use clove::cmd::edit::{choose_editor, editor_outcome};
use clove::cmd::import::ImportError;
use clove::cmd::label::{edit_of, LabelEdit};
use clove::cmd::merge_driver::{
    begin as begin_merge, conclude, field_conflict_block, finish as merge_finish, marker_size,
    merge_body, merge_file_args, merged_file, BodyMerge, FieldConflict, MergeStep,
};
use clove::cmd::new::emit as emit_new;
use clove::cmd::reindex::{after_daemon, busy, run as reindex, DaemonReindex, Report, REBUILD_WAIT_MS};
use clove::cmd::serve::{
    check_host, hand_off, hub_wait, listening, requested_port, HubWait, Served, HUB_WAIT_MS,
};
use clove::cmd::stats::{
    options, render_human, run as stats, history_window, show_history, stray_window, DaemonStats, EpicRollup,
    IndexStats, KeyCount, PriorityCounts, Snapshot, StatsReport, StatusCounts, Throughput,
    TypeCounts,
};
use clove::cmd::status::{dependents_of, warn_on_close, Linked};
use clove::cmd::sync::{policy_of, run as sync, sync_err, Conflict, ConflictPolicy, SyncReport, SyncSummary};
use clove::cmd::version::run as version;
use clove::context::{index_error, layout, locate, rel_to_root, root_of};
use clove::dispatch::{
    dispatch_external, dispatch_multiplexer, finish, format_for, parse_exit, provider_segments,
    run_repo, scope, External, RepoAction, Scope,
};
use clove::error::CloveError;
use clove::exit::ExitCode;
use clove::item_json::{export_object, human_line, parse_fields, project, Item};
use clove::json::Json;
use clove::output::{Out, OutputFormat};
use clove::view::ItemStatus;

fn words(items: &[&str]) -> Vec<String> {
    items.iter().map(|s| s.to_string()).collect()
}

fn json(text: &str) -> Json {
    match Json::parse(text) {
        Ok(v) => v,
        Err(e) => panic!("{}", e),
    }
}

fn entries(text: &str) -> Vec<(String, Json)> {
    match json(text) {
        Json::Object(v) => v,
        other => panic!("{}", other.to_text()),
    }
}

/// The lines, each with the stream it goes to.
fn shown(out: &[Out]) -> Vec<String> {
    out.iter()
        .map(|o| format!("{}{}", if o.on_stdout() { "" } else { "! " }, o.line()))
        .collect()
}

/// The data of the one envelope that was printed.
fn data(out: &[Out]) -> Json {
    assert_eq!(out.len(), 1);
    let envelope = json(&out[0].line());
    assert_eq!(envelope.get("ok"), Some(&Json::Bool(true)));
    json(&envelope.get("data").unwrap().to_text())
}

fn refused_field(e: &CloveError) -> (String, String) {
    match e {
        CloveError::InvalidField { field, reason } => (field.clone(), reason.clone()),
        other => panic!("{}", other.to_string()),
    }
}

// ---- The command line ---------------------------------------------------------

#[test]
fn words_of_the_command_line_are_parsed() {
    assert_eq!(parse_format("json"), Ok(OutputFormat::Json));
    assert_eq!(
        parse_format("xml"),
        Err("invalid format `xml` (expected human|json|jsonl)".to_string())
    );
    assert_eq!(parse_id_prefix("ab1"), Ok("ab1".to_string()));
    for bad in ["", "1a", "Ab", "abcdefghi", "a-b"] {
        let told = format!("id_prefix `{}` must match ^[a-z][a-z0-9]{{0,7}}$", bad);
        assert_eq!(parse_id_prefix(bad), Err(told));
    }
    assert_eq!(parse_sort_field("updated"), Some(SortField::Updated));
    assert_eq!(parse_sort_field("colour"), None);
    let order = order_of(None, true).unwrap();
    assert_eq!((order.field, order.dir_str()), (SortField::Rank, "desc"));
    assert!(order_of(Some("colour"), false).is_err());
}

#[test]
fn setting_up_needs_no_repository() {
    let init = Commands::Init(InitArgs { prefix: None, merge_driver: false });
    assert_eq!(scope(&init), Scope::Anywhere);
    assert_eq!(scope(&Commands::Mcp), Scope::Anywhere);
    assert_eq!(scope(&Commands::Version), Scope::Anywhere);
    assert_eq!(scope(&Commands::External(words(&["x"]))), Scope::Plugin);
    assert_eq!(scope(&Commands::Reindex), Scope::Repository);
    let config = Some(OutputFormat::Jsonl);
    assert_eq!(format_for(Scope::Repository, None, None, config), OutputFormat::Jsonl);
    assert_eq!(format_for(Scope::Anywhere, None, None, config), OutputFormat::Human);
    assert_eq!(format_for(Scope::Anywhere, None, Some("json"), None), OutputFormat::Json);
}

#[test]
fn start_and_close_are_statuses() {
    let id = || IdArg { id: "a-1".to_string() };
    let set = |status| RepoAction::SetStatus { id: "a-1".to_string(), status };
    let same = |r: Result<RepoAction, CloveError>, want: RepoAction| match (r, want) {
        (
            Ok(RepoAction::SetStatus { id: a, status: s }),
            RepoAction::SetStatus { id: b, status: t },
        ) => a == b && s == t,
        _ => false,
    };
    assert!(same(run_repo(Commands::Start(id())), set(ItemStatus::InProgress)));
    assert!(same(run_repo(Commands::Close(id())), set(ItemStatus::Closed)));
    let to = |state: &str| {
        Commands::Status(StatusArgs { id: "a-1".to_string(), state: state.to_string() })
    };
    assert!(same(run_repo(to("open")), set(ItemStatus::Open)));
    assert!(run_repo(to("asleep")).is_err());
}

#[test]
fn a_foreign_provider_goes_to_its_plugin() {
    let rest = words(&["a.json", "--dry-run"]);
    let import = |provider: &str| {
        run_repo(Commands::Import(ImportArgs {
            provider: provider.to_string(),
            rest: words(&["a.json", "--dry-run"]),
        }))
    };
    assert!(matches!(import("json"), Ok(RepoAction::Import(a)) if a.rest == rest));
    assert!(matches!(import("tk"), Ok(RepoAction::Provider { multiplexer, provider, rest: r })
        if multiplexer == "import" && provider == "tk" && r == rest));
    let sync = Commands::Sync(SyncArgs { provider: "json".to_string(), rest: words(&[]) });
    assert!(matches!(run_repo(sync), Ok(RepoAction::Provider { multiplexer, .. })
        if multiplexer == "sync"));
    let export = Commands::Export(ExportArgs { provider: "jsonl".to_string(), rest: words(&[]) });
    assert!(matches!(run_repo(export), Ok(RepoAction::Export(_))));
    assert_eq!(provider_segments("sync", "github"), words(&["sync", "github"]));
    assert_eq!(
        dispatch_multiplexer("sync", "github", Some("/p".to_string())),
        Ok("/p".to_string())
    );
    let e = dispatch_multiplexer("sync", "gitlab", None).unwrap_err();
    assert_eq!(
        refused_field(&e),
        (
            "provider".to_string(),
            "unknown sync provider `gitlab`; install clove-sync-gitlab".to_string()
        )
    );
}

#[test]
fn an_unknown_subcommand_is_a_usage_error() {
    let argv = words(&["frob", "--x"]);
    let found = dispatch_external(
        &argv,
        Some("/b/clove-frob".to_string()),
        &words(&[]),
        OutputFormat::Human,
        false,
        "",
    );
    assert!(matches!(found, External::Run { path, name, rest }
        if path == "/b/clove-frob" && name == "frob" && rest == words(&["--x"])));
    let none = dispatch_external(&argv, None, &words(&["tk"]), OutputFormat::Json, false, ".exe");
    match none {
        External::Unknown { lines, exit } => {
            assert_eq!(exit, ExitCode::Usage);
            let envelope = json(&lines[0].line());
            let error = envelope.get("error").unwrap();
            assert_eq!(error.get("code").and_then(|v| v.as_str()), Some("UNKNOWN_SUBCOMMAND"));
            let message = error.get("message").and_then(|v| v.as_str()).unwrap();
            assert!(message.contains("clove-frob.exe") && message.contains("tk"));
        }
        External::Run { .. } => panic!("nothing serves it"),
    }
    let quiet = dispatch_external(&argv, None, &words(&[]), OutputFormat::Human, true, "");
    assert!(matches!(quiet, External::Unknown { lines, .. } if lines.is_empty()));
    let bare = dispatch_external(&words(&[]), None, &words(&[]), OutputFormat::Human, true, "");
    assert!(matches!(bare, External::Unknown { exit: ExitCode::Usage, .. }));
}

#[test]
fn a_command_ends_with_its_code_or_with_that_of_its_error() {
    assert_eq!(parse_exit(true), ExitCode::Success);
    assert_eq!(parse_exit(false), ExitCode::Usage);
    let (lines, exit) = finish(OutputFormat::Human, Ok(ExitCode::Validation), false);
    assert!(lines.is_empty());
    assert_eq!(exit, ExitCode::Validation);
    let missing = CloveError::NotFound { id: "a-1".to_string() };
    let (lines, exit) = finish(OutputFormat::Human, Err(missing), false);
    assert_eq!(exit, ExitCode::NotFound);
    assert!(!lines[0].on_stdout());
}

#[test]
fn a_repository_is_given_or_found() {
    let given = locate(Some("/x/.clove"), "/w", None).unwrap();
    assert_eq!(given, ("/x".to_string(), "/x/.clove".to_string()));
    let bare = locate(Some(".clove"), "/w", None).unwrap();
    assert_eq!(bare, (String::new(), ".clove".to_string()));
    let found = locate(None, "/w/sub", Some("/w")).unwrap();
    assert_eq!(found, ("/w".to_string(), "/w/.clove".to_string()));
    assert_eq!(
        locate(None, "/w", None),
        Err(CloveError::NoRepo { searched: "/w".to_string() })
    );
    let ctx = layout("/w", "/w/.clove", "ab");
    assert_eq!(ctx.issues_dir, "/w/.clove/issues");
    assert_eq!(ctx.db_path, "/w/.clove/index.db");
    assert_eq!(ctx.id_prefix, "ab");
    assert_eq!(
        index_error("locked", "/w/.clove/index.db"),
        CloveError::Io {
            path: "/w/.clove/index.db".to_string(),
            source: "locked".to_string(),
        }
    );
}

// ---- Small commands -----------------------------------------------------------

#[test]
fn labels_are_added_and_removed() {
    assert_eq!(edit_of("add", "x"), Ok(LabelEdit::Add("x".to_string())));
    assert_eq!(edit_of("rm", "x"), Ok(LabelEdit::Remove("x".to_string())));
    assert_eq!(edit_of("remove", "x"), Ok(LabelEdit::Remove("x".to_string())));
    let e = edit_of("drop", "x").unwrap_err();
    assert_eq!(refused_field(&e).1, "expected add|rm, got `drop`");
    let args = LabelArgs { id: "a".to_string(), action: "add".to_string(), label: "x".to_string() };
    assert!(matches!(run_repo(Commands::Label(args)), Ok(RepoAction::Label(_))));
}

#[test]
fn an_assignee_is_named_or_cleared() {
    assert_eq!(assignee_of(Some("ada".to_string()), false), Ok(Some("ada".to_string())));
    assert_eq!(assignee_of(None, true), Ok(None));
    let e = assignee_of(None, false).unwrap_err();
    assert_eq!(refused_field(&e).1, "provide an assignee or use --clear");
}

#[test]
fn the_editor_is_the_first_that_is_set() {
    let some = |s: &str| Some(s.to_string());
    assert_eq!(choose_editor(some("a"), some("b"), some("c")), "a");
    assert_eq!(choose_editor(None, some("b"), some("c")), "b");
    assert_eq!(choose_editor(None, None, some("c")), "c");
    assert_eq!(choose_editor(None, None, None), "vi");
    assert_eq!(editor_outcome("vi", "f.md", true), Ok(()));
    assert_eq!(
        editor_outcome("vi", "f.md", false),
        Err(CloveError::Io {
            path: "f.md".to_string(),
            source: "editor `vi` exited with failure".to_string(),
        })
    );
}

#[test]
fn closing_warns_of_what_still_waits() {
    let link = |id: &str, closed: bool, deps: &[&str]| Linked {
        id: id.to_string(),
        closed,
        deps: words(deps),
    };
    let all = vec![
        link("a", false, &[]),
        link("b", false, &["a"]),
        link("c", true, &["a"]),
        link("d", false, &["x", "a"]),
    ];
    assert_eq!(dependents_of(&all, "a"), words(&["b", "d"]));
    assert_eq!(
        shown(&warn_on_close(true, false, "a", &all)),
        words(&["! warning: a still has open dependents: b, d"])
    );
    assert!(warn_on_close(false, false, "a", &all).is_empty());
    assert!(warn_on_close(true, true, "a", &all).is_empty());
    assert!(warn_on_close(true, false, "b", &all).is_empty());
}

#[test]
fn the_version_tells_the_schema() {
    let out = version(OutputFormat::Human, "1.2.3", None, None);
    assert_eq!(shown(&out), words(&["clove 1.2.3"]));
    let out = version(OutputFormat::Json, "1.2.3", Some("abc"), None);
    assert_eq!(
        data(&out).to_text(),
        r#"{"build_date":null,"clove":"1.2.3","git_hash":"abc","schema":1}"#
    );
}

#[test]
fn a_new_item_is_told_by_id_and_path() {
    let item = json(r#"{"id":"a-1","path":".clove/issues/a-1.md"}"#);
    let out = emit_new(OutputFormat::Human, item);
    assert_eq!(shown(&out), words(&["a-1  .clove/issues/a-1.md"]));
}

#[test]
fn a_generated_document_passes_its_own_check() {
    let text = generate("1.2.3");
    assert!(text.starts_with("<!-- generated-by: clove v1.2.3 schema:1 -->\n# clove for agents\n"));
    assert_eq!(marker("1.2.3"), "<!-- generated-by: clove v1.2.3 schema:1 -->");
    assert_eq!(check(&text), Ok(()));
    assert_eq!(extract_schema(&text), Some(1));
    assert_eq!(extract_schema("# nothing\n"), None);
    let stale = text.replace("schema:1 -->", "schema:7 -->");
    let e = check(&stale).unwrap_err();
    assert!(refused_field(&e).1.starts_with("stale: doc schema 7, binary schema 1"));
    let e = check("# nothing\n").unwrap_err();
    assert_eq!(refused_field(&e).1, "no `generated-by: clove ... schema:N` marker found");
    assert_eq!(check_target(&Some("A.md".to_string())), Ok("A.md"));
    let e = check_target(&None).unwrap_err();
    assert_eq!(refused_field(&e).1, "--check requires --file PATH");
}

#[test]
fn items_are_projected_and_exported() {
    let item = Item {
        id: "a-1".to_string(),
        status: "open".to_string(),
        priority: 2,
        item_type: "bug".to_string(),
        title: "T".to_string(),
        body: "B".to_string(),
        frontmatter: entries(r#"{"id":"a-1","title":"T"}"#),
    };
    assert_eq!(parse_fields(" id, title,,"), words(&["id", "title"]));
    let some = project(&item.frontmatter, &words(&["title", "zz"]));
    assert_eq!(Json::Object(some).to_text(), r#"{"title":"T"}"#);
    assert!(human_line(&item).contains("a-1") && human_line(&item).contains("T"));
    let waits = (&words(&["b"]), &words(&["zz"]));
    let out = export_object(&item, 3, false, Some(waits));
    assert_eq!(out.get("body").and_then(|v| v.as_str()), Some("B"));
    assert_eq!(out.get("comment_count").and_then(|v| v.as_u64()), Some(3));
    assert_eq!(out.get("ready").and_then(|v| v.as_bool()), Some(false));
    assert!(out.get("blocked_by").unwrap().to_text().contains("\"b\""));
}

// ---- Dependencies -------------------------------------------------------------

fn node(id: &str, children: Vec<DepTreeNode>) -> DepTreeNode {
    DepTreeNode {
        id: id.to_string(),
        title: format!("T {}", id),
        status: "open".to_string(),
        ready: children.is_empty(),
        cycle_ref: false,
        children,
    }
}

#[test]
fn a_tree_is_nested_or_flat() {
    let tree = node("a", vec![node("b", vec![node("c", vec![])]), node("d", vec![])]);
    let nested = tree_to_json(&tree);
    let first = &nested.get("children").and_then(|v| v.as_array()).unwrap()[0];
    assert_eq!(first.get("id").and_then(|v| v.as_str()), Some("b"));
    let mut flat = Vec::new();
    flatten(&tree, 0, &mut flat);
    let told: Vec<(String, u64)> = flat
        .iter()
        .map(|v| {
            let id = v.get("id").and_then(|i| i.as_str()).unwrap().to_string();
            (id, v.get("depth").and_then(|d| d.as_u64()).unwrap())
        })
        .collect();
    let want = [("a", 0), ("b", 1), ("c", 2), ("d", 1)];
    assert_eq!(told, want.map(|(i, d)| (i.to_string(), d)).to_vec());
    assert!(flat[0].get("children").is_none());
    assert_eq!(data(&emit_tree(&tree, true)).as_array().unwrap().len(), 4);
    assert_eq!(data(&emit_tree(&tree, false)).to_text(), nested.to_text());
}

#[test]
fn the_depth_is_five_unless_it_is_lifted() {
    assert_eq!(depth_of(None, false), 5);
    assert_eq!(depth_of(Some(2), false), 2);
    assert_eq!(depth_of(Some(0), false), usize::MAX);
    assert_eq!(depth_of(Some(2), true), usize::MAX);
}

#[test]
fn cycles_fail_only_when_that_is_asked_for() {
    let cycles = vec![words(&["a", "b", "a"])];
    let (out, exit) = emit_cycles(OutputFormat::Human, &cycles, false);
    assert_eq!(shown(&out), words(&["a → b → a"]));
    assert_eq!(exit, ExitCode::Success);
    let (out, exit) = emit_cycles(OutputFormat::Json, &cycles, true);
    assert_eq!(data(&out).to_text(), r#"[["a","b","a"]]"#);
    assert_eq!(exit, ExitCode::Cycle);
    let (out, exit) = emit_cycles(OutputFormat::Human, &vec![], true);
    assert_eq!(shown(&out), words(&["no cycles"]));
    assert_eq!(exit, ExitCode::Success);
}

// ---- The daemon ---------------------------------------------------------------

fn daemon_message(e: &CloveError) -> String {
    match e {
        CloveError::Remote { code, exit: 7, message } if code == "DAEMON_ERROR" => message.clone(),
        other => panic!("{}", other.to_string()),
    }
}

#[test]
fn a_start_succeeds_or_tells_why_not() {
    let out = already_serving(OutputFormat::Human, "/w/.clove", Some(7));
    assert_eq!(shown(&out), words(&["daemon already serving /w/.clove"]));
    let out = started(OutputFormat::Human, "/w/.clove", None);
    assert_eq!(shown(&out), words(&["daemon serving /w/.clove (pid ?)"]));
    let out = started(OutputFormat::Json, "/w/.clove", Some(7));
    assert_eq!(data(&out).to_text(), r#"{"pid":7,"started":true}"#);
    assert_eq!(start_outcome(&StartAttempt::Serving, None), Ok(()));
    let refused = StartAttempt::Refused("no".to_string());
    assert_eq!(
        daemon_message(&start_outcome(&refused, None).unwrap_err()),
        "the daemon cannot serve this project: no"
    );
    assert!(daemon_message(&start_outcome(&refused, Some(9)).unwrap_err())
        .starts_with("a clove 0.1.0 daemon (pid 9) already serves this project"));
    let dead = StartAttempt::NoConnection("gone".to_string());
    assert_eq!(
        daemon_message(&start_outcome(&dead, None).unwrap_err()),
        "could not start the daemon: gone"
    );
    assert!(daemon_message(&start_outcome(&StartAttempt::NotReady, None).unwrap_err())
        .contains("did not become ready within 5s"));
}

#[test]
fn a_stop_waits_for_the_process_to_go() {
    assert_eq!(wait_step(0, true), Waiting::Sleep);
    assert_eq!(wait_step(0, false), Waiting::Gone);
    assert_eq!(wait_step(WAIT_TIMEOUT_MS, true), Waiting::TimedOut);
    assert_eq!(daemon_message(&wait_timed_out()), "daemon did not stop within 5s");
    assert_eq!(signal_pid(None), Ok(()));
    let denied = signal_pid(Some((Some(1), "not permitted".to_string()))).unwrap_err();
    assert_eq!(daemon_message(&denied), "sending SIGTERM: not permitted");
    let out = stopped_legacy(OutputFormat::Human, 9);
    assert_eq!(shown(&out), words(&["stopped the clove 0.1.0 daemon (pid 9)"]));
}

#[test]
fn a_project_is_detached_from_the_hub() {
    let human = OutputFormat::Human;
    let gone = stop(human, &DetachAttempt::NoHub).unwrap();
    assert_eq!(shown(&gone), words(&["no daemon serving this project"]));
    let done = DetachAttempt::Answered(Detached { detached: true, hub_exiting: true });
    let out = stop(OutputFormat::Json, &done).unwrap();
    assert_eq!(data(&out).to_text(), r#"{"hub_stopped":true,"stopped":true}"#);
    let not = DetachAttempt::Answered(Detached { detached: false, hub_exiting: false });
    assert_eq!(shown(&stop(human, &not).unwrap()), words(&["no daemon serving this project"]));
    let failed = DetachAttempt::Failed("lost".to_string());
    assert_eq!(
        daemon_message(&stop(human, &failed).unwrap_err()),
        "detaching this project: lost"
    );
    assert_eq!(hub_to_stop(Reached::Nothing, Some(3)), None);
    assert_eq!(hub_to_stop(Reached::Connected, Some(3)), Some(3));
    assert_eq!(shown(&stop_hub(human, true)), words(&["daemon stopped"]));
    assert_eq!(shown(&stop_hub(human, false)), words(&["no daemon running"]));
}

fn project_status() -> ProjectStatus {
    ProjectStatus {
        uptime_s: 12,
        items_indexed: 3,
        watcher_state: "watching".to_string(),
        last_event_ms: None,
        batches_applied: 1,
        ping_count: 2,
        last_ping_ms: Some(5),
        web_addr: None,
        web_url: None,
    }
}

#[test]
fn the_status_tells_of_the_hub_and_the_project() {
    let none = daemon_status(OutputFormat::Json, None, None);
    assert_eq!(data(&none).get("running"), Some(&Json::Bool(false)));
    let hub = HubStatus {
        pid: 42,
        uptime_s: 60,
        web_addr: None,
        projects: vec![ServedProject {
            clove_dir: "/w/.clove".to_string(),
            status: project_status(),
        }],
    };
    let mine = project_status();
    let out = data(&daemon_status(OutputFormat::Json, Some(&hub), Some(&mine)));
    assert_eq!(out.get("running"), Some(&Json::Bool(true)));
    assert!(out.to_text().contains("\"pid\":42"));
    assert!(out.to_text().contains("/w/.clove"));
}

#[test]
fn a_reindex_falls_back_to_this_process() {
    let report = |n: u64| Report { items_indexed: n, duration_ms: 4, warnings: words(&["w"]) };
    let out = reindex(OutputFormat::Human, &report(3), false);
    assert_eq!(shown(&out), words(&["indexed 3 item(s) in 4 ms", "! warning: w"]));
    assert!(reindex(OutputFormat::Human, &report(3), true).is_empty());
    let out = data(&reindex(OutputFormat::Json, &report(3), true));
    assert_eq!(out.to_text(), r#"{"duration_ms":4,"items_indexed":3,"warnings":["w"]}"#);
    let (done, notes) = after_daemon(DaemonReindex::Done(report(8)), false);
    assert_eq!(done.map(|r| r.items_indexed), Some(8));
    assert!(notes.is_empty());
    let (done, notes) = after_daemon(DaemonReindex::Stopped, false);
    assert!(done.is_none() && notes.len() == 1 && !notes[0].on_stdout());
    assert!(after_daemon(DaemonReindex::Stopped, true).1.is_empty());
    assert!(after_daemon(DaemonReindex::Absent, false).0.is_none());
    assert!(after_daemon(DaemonReindex::Failed, false).0.is_none());
    assert_eq!(busy(REBUILD_WAIT_MS - 1, "/db"), None);
    assert!(matches!(busy(REBUILD_WAIT_MS, "/db"), Some(CloveError::Io { path, .. })
        if path == "/db"));
}

// ---- Serving ------------------------------------------------------------------

#[test]
fn a_starting_hub_is_waited_for() {
    assert_eq!(hub_wait(true, true, 0), HubWait::Ready);
    assert_eq!(hub_wait(true, false, 0), HubWait::Again);
    assert_eq!(hub_wait(false, false, 0), HubWait::GiveUp);
    assert_eq!(hub_wait(true, false, HUB_WAIT_MS), HubWait::GiveUp);
}

#[test]
fn the_daemon_serves_unless_another_port_is_asked_for() {
    let served = || Some(Served { port: Some(7373), url: "http://x".to_string() });
    let (handed, out) = hand_off(&served(), None, false);
    assert!(handed);
    assert_eq!(shown(&out), words(&["! clove web UI served by the running daemon: http://x"]));
    assert!(hand_off(&served(), Some(7373), true).0);
    assert!(!hand_off(&served(), Some(8000), false).0);
    let (handed, out) = hand_off(&None, None, false);
    assert!(!handed && out.len() == 1);
    assert_eq!(requested_port(None, 7373), (7373, true));
    assert_eq!(requested_port(Some(80), 7373), (80, false));
}

#[test]
fn only_loopback_is_bound_unless_permitted() {
    assert_eq!(check_host("127.0.0.1", "127.0.0.1", Some(true), false, false), Ok(vec![]));
    let e = check_host("nope", "", None, true, false).unwrap_err();
    assert_eq!(refused_field(&e).1, "not a valid IP address: nope");
    let e = check_host("0.0.0.0", "0.0.0.0", Some(false), false, false).unwrap_err();
    assert_eq!(
        refused_field(&e).1,
        "binding a non-loopback address requires --allow-non-loopback"
    );
    let out = check_host("0.0.0.0", "0.0.0.0", Some(false), true, false).unwrap();
    assert!(shown(&out)[0].starts_with("! warning: serving on a non-loopback address (0.0.0.0)"));
    let lines = listening("http://h", 7373, 9000, false, true, false);
    assert_eq!(
        shown(&lines),
        words(&[
            "! note: port 7373 is in use; using a free port",
            "! clove web UI: http://h",
            "!   (file-watcher disabled — no live updates)",
            "!   press Ctrl-C to stop",
        ])
    );
    assert!(listening("http://h", 7373, 9000, false, true, true).is_empty());
    assert_eq!(listening("http://h", 9000, 9000, true, false, false).len(), 2);
}

// ---- Merging ------------------------------------------------------------------

#[test]
fn a_side_that_is_no_item_leaves_ours_alone() {
    let begun = |ours, theirs, base, empty| {
        begin_merge(OutputFormat::Json, "o", ours, theirs, base, empty)
    };
    for (step, note) in [
        (begun(None, Some("t"), None, true), "unparseable-ours"),
        (begun(Some("o"), None, Some("b"), false), "unparseable-theirs"),
    ] {
        match step {
            MergeStep::Refused(out, exit) => {
                assert_eq!(exit, ExitCode::Usage);
                assert_eq!(data(&out).get("note").unwrap().as_str(), Some(note));
            }
            other => panic!("{other:?}"),
        }
    }
    let bodies = |base: &str, with_base| MergeStep::Bodies {
        ours: "o".to_string(),
        base: base.to_string(),
        theirs: "t".to_string(),
        with_base,
    };
    assert_eq!(begun(Some("o"), Some("t"), Some("b"), false), bodies("b", true));
    assert_eq!(begun(Some("o"), Some("t"), Some("b"), true), bodies("", false));
    assert_eq!(begun(Some("o"), Some("t"), None, false), bodies("", false));
    assert_eq!(marker_size(3), 7);
    assert_eq!(marker_size(9), 9);
}

#[test]
fn git_merges_the_bodies() {
    assert_eq!(
        merge_file_args(9, "o", "b", "t"),
        words(&[
            "merge-file", "-p", "-L", "ours", "-L", "base", "-L", "theirs", "--marker-size=9",
            "o", "b", "t",
        ])
    );
    let body = merge_body(Some(0), "text", "").unwrap();
    assert_eq!((body.text.as_str(), body.conflicted), ("text", false));
    assert!(merge_body(Some(2), "text", "").unwrap().conflicted);
    assert_eq!(
        merge_body(Some(-1), "", "bad").unwrap_err(),
        CloveError::Io {
            path: "git merge-file".to_string(),
            source: "git merge-file failed: bad".to_string(),
        }
    );
    assert!(merge_body(None, "", "").is_err());
}

#[test]
fn a_field_conflict_shows_both_values() {
    let conflicts = vec![FieldConflict {
        field: "title".to_string(),
        ours: "A".to_string(),
        theirs: "B".to_string(),
    }];
    let block = field_conflict_block(&conflicts, 7);
    assert_eq!(
        block,
        "\n<!-- clove: frontmatter merge conflict, resolve and remove this block\n\
         <<<<<<< ours\ntitle: A\n=======\ntitle: B\n>>>>>>> theirs\n-->\n"
    );
    let body = || BodyMerge { text: "body".to_string(), conflicted: false };
    let clean = merged_file("---\n", &vec![], &body(), 7);
    assert!(clean.starts_with("---\n") && clean.ends_with("body"));
    assert!(merged_file("---\n", &conflicts, &body(), 7).contains(&block));
    let torn = BodyMerge { text: "".to_string(), conflicted: true };
    let exit = |conflicts: &Vec<FieldConflict>, body: &BodyMerge| {
        conclude(OutputFormat::Human, "o", "---\n", conflicts, body, 7).exit
    };
    assert_eq!(exit(&vec![], &body()), ExitCode::Success);
    assert_eq!(exit(&conflicts, &body()), ExitCode::Usage);
    assert_eq!(exit(&vec![], &torn), ExitCode::Usage);
    let done = conclude(OutputFormat::Json, "o", "---\n", &conflicts, &body(), 7);
    assert_eq!(done.text, merged_file("---\n", &conflicts, &body(), 7));
    assert_eq!(data(&done.out).get("clean").unwrap().as_bool(), Some(false));
    assert!(merge_finish(OutputFormat::Human, "o", true, "merged").is_empty());
    let out = data(&merge_finish(OutputFormat::Json, "o", false, "merged"));
    assert_eq!(out.to_text(), r#"{"clean":false,"conflict":true,"note":"merged","ours":"o"}"#);
}

// ---- Statistics ---------------------------------------------------------------

fn report() -> StatsReport {
    StatsReport {
        total: 6,
        by_status: StatusCounts { open: 3, in_progress: 1, closed: 2 },
        by_type: TypeCounts { bug: 1, feature: 2, chore: 1, docs: 1, epic: 1 },
        by_priority: PriorityCounts { p0: 1, p1: 1, p2: 2, p3: 1, p4: 1 },
        ready: 2,
        blocked: 1,
        excluded: 0,
        dangling: 0,
        cycles: 0,
        by_assignee: vec![KeyCount { key: "ada".to_string(), count: 4 }],
        unassigned: 2,
        by_label: vec![],
        throughput: Throughput {
            created_7d: 1,
            created_30d: 2,
            created_total: 6,
            closed_7d: 0,
            closed_30d: 1,
            closed_total: 2,
        },
        epics: vec![EpicRollup {
            id: "a-1".to_string(),
            title: "Big".to_string(),
            closed: 2,
            total: 2,
            pct: 100,
            completable: true,
        }],
    }
}

#[test]
fn the_report_is_told_in_sections() {
    let index = Some(IndexStats { items_indexed: 6, schema_version: 4, stale: true });
    let lines = shown(&render_human(&report(), &None, index, true));
    assert_eq!(lines[0], "clove stats — 6 items\n");
    assert_eq!(lines[1], "Status     open 3  in_progress 1  closed 2");
    assert_eq!(lines[2], "Type       bug 1  feature 2  chore 1  docs 1  epic 1");
    assert_eq!(lines[3], "Priority   p0 1  p1 1  p2 2  p3 1  p4 1");
    assert_eq!(lines[4], "Workflow   ready 2  blocked 1  excluded 0  dangling 0  cycles 0");
    assert_eq!(lines[5], "Assignees  ada 4  unassigned 2");
    let created = "Throughput created 7d 1 / 30d 2 / all 6    closed 7d 0 / 30d 1 / all 2";
    assert!(lines.iter().any(|l| l == created));
    assert!(lines.iter().any(|l| l == "\nEpics"));
    let epic = format!("  {:<14} {:<24} 2/2  100% ✓", "a-1", "Big");
    assert!(lines.iter().any(|l| *l == epic));
    assert!(lines.iter().any(|l| l == "Daemon     not running"));
    assert!(lines.iter().any(|l| l == "Index      present  items 6  schema 4  stale"));
    assert_eq!(
        lines.last().unwrap(),
        "\nsnapshot recorded to the index history (.clove/index.db)"
    );
}

#[test]
fn the_report_carries_its_telemetry() {
    let daemon = Some(DaemonStats {
        uptime_s: 9,
        items_indexed: 6,
        watcher_state: "watching".to_string(),
        last_event_ms: None,
        batches_applied: 0,
    });
    let told = entries(r#"{"total":6}"#);
    let out = stats(OutputFormat::Json, &report(), &told, &daemon, None, "2025-01-01T00:00:00Z", false);
    let envelope = json(&out[0].line());
    let body = envelope.get("data").unwrap();
    assert_eq!(body.get("total").and_then(|v| v.as_u64()), Some(6));
    assert_eq!(body.get("index").unwrap().to_text(), r#"{"present":false}"#);
    assert_eq!(
        body.get("daemon").and_then(|d| d.get("uptime_s")).and_then(|v| v.as_u64()),
        Some(9)
    );
    assert_eq!(
        envelope.get("_meta").unwrap().to_text(),
        r#"{"generated_at":"2025-01-01T00:00:00Z","snapshotted":false,"source":"files"}"#
    );
}

fn stats_args() -> StatsArgs {
    StatsArgs {
        top: None,
        no_epics: false,
        snapshot: false,
        history: false,
        since: None,
        limit: None,
        offset: None,
    }
}

#[test]
fn the_window_belongs_to_the_history() {
    assert!(!stray_window(&stats_args()));
    assert!(stray_window(&StatsArgs { limit: Some(1), ..stats_args() }));
    assert!(stray_window(&StatsArgs { since: Some("x".to_string()), ..stats_args() }));
    assert!(!stray_window(&StatsArgs { offset: Some(1), history: true, ..stats_args() }));
    let o = options(&StatsArgs { no_epics: true, ..stats_args() });
    assert_eq!((o.top, o.include_epics), (10, false));
    assert_eq!(options(&StatsArgs { top: Some(3), ..stats_args() }).top, 3);
}

#[test]
fn the_history_is_a_table() {
    let out = show_history(OutputFormat::Human, &None);
    assert_eq!(
        shown(&out),
        words(&["no stats snapshots recorded yet (run `clove stats --snapshot`)"])
    );
    let out = show_history(OutputFormat::Human, &Some(vec![]));
    assert_eq!(shown(&out), words(&["no stats snapshots in range"]));
    let one = || {
        Some(vec![Snapshot {
            captured_at: "2025-01-01T00:00:00Z".to_string(),
            moment: 1_735_689_600_000,
            report: report(),
            stats: json(r#"{"total":6}"#),
        }])
    };
    let lines = shown(&show_history(OutputFormat::Human, &one()));
    let row = format!(
        "{:<24} {:>5}  {:>4}  {:>7}  {:>6}  {:>5}  {:>7}  {:>6}",
        "2025-01-01T00:00:00Z", 6, 3, 1, 2, 2, 1, 0
    );
    assert!(lines.contains(&row));
    let out = show_history(OutputFormat::Json, &one());
    assert!(out[0].line().contains(r#"{"captured_at":"2025-01-01T00:00:00Z","stats":{"total":6}}"#));
}

#[test]
fn the_window_of_the_history() {
    let series = |n: i64| -> Vec<Snapshot> {
        (0..n)
            .map(|i| Snapshot {
                captured_at: format!("t{i}"),
                moment: i,
                report: report(),
                stats: json("{}"),
            })
            .collect()
    };
    let seen = |n, since, limit, offset| -> Vec<i64> {
        history_window(series(n), since, limit, offset).iter().map(|s| s.moment).collect()
    };
    assert_eq!(seen(3, None, None, None), [0, 1, 2]);
    assert_eq!(seen(3, Some(1), None, None), [1, 2]);
    assert_eq!(seen(5, Some(1), Some(2), Some(1)), [2, 3]);
    assert_eq!(seen(3, None, None, Some(9)), Vec::<i64>::new());
    assert_eq!(seen(120, None, None, None).len(), 100);
    assert_eq!(seen(120, None, Some(0), Some(1)).len(), 119);
}

// ---- Syncing ------------------------------------------------------------------

fn summary() -> SyncSummary {
    SyncSummary {
        pull_create: 1,
        pull_update: 2,
        push_create: 3,
        push_update: 4,
        in_sync: 5,
        conflicts: vec![Conflict {
            external_ref: "gh#1".to_string(),
            clove_id: "a-1".to_string(),
            title: "T".to_string(),
            resolution: "local".to_string(),
        }],
        remote_missing: words(&["gh#9"]),
        serialized: json(r#"{"plan":1}"#),
    }
}

#[test]
fn the_policy_is_one_of_four() {
    assert_eq!(policy_of(None), Ok(ConflictPolicy::Newer));
    assert_eq!(policy_of(Some("newer")), Ok(ConflictPolicy::Newer));
    assert_eq!(policy_of(Some("local")), Ok(ConflictPolicy::Local));
    assert_eq!(policy_of(Some("remote")), Ok(ConflictPolicy::Remote));
    assert_eq!(policy_of(Some("manual")), Ok(ConflictPolicy::Manual));
    let e = policy_of(Some("mine")).unwrap_err();
    assert_eq!(refused_field(&e).1, "expected newer|local|remote|manual, got `mine`");
}

#[test]
fn a_pass_tells_what_it_plans_or_did() {
    let out = sync(OutputFormat::Human, "o/r", &summary(), &None);
    assert_eq!(
        shown(&out),
        words(&[
            "dry-run o/r: pull 1 new / 2 updated, push 3 new / 4 updated, 5 in sync, 1 conflicts",
            "  conflict gh#1 (a-1)  T -> local",
            "! warning: local item links gh#9 but the GitHub issue was not found",
        ])
    );
    let done = Some(SyncReport {
        pulled_created: 1,
        pulled_updated: 2,
        pushed_created: 3,
        pushed_updated: 4,
        comments_pulled: 6,
        comments_pushed: 7,
        in_sync: 5,
        conflicts: 1,
    });
    let out = sync(OutputFormat::Human, "o/r", &summary(), &done);
    assert_eq!(
        shown(&out)[0],
        "synced o/r: pulled 1 new / 2 updated, pushed 3 new / 4 updated, comments +6/-7, \
         5 in sync, 1 conflicts"
    );
    let out = data(&sync(OutputFormat::Json, "o/r", &summary(), &done));
    assert_eq!(out.get("comments_pushed").and_then(|v| v.as_u64()), Some(7));
    assert_eq!(out.get("remote_missing").unwrap().to_text(), r#"["gh#9"]"#);
    let out = data(&sync(OutputFormat::Json, "o/r", &summary(), &None));
    assert!(out.to_text().contains("\"plan\":1"));
}

#[test]
fn a_failed_pass_keeps_the_cause() {
    let inner = || CloveError::NotFound { id: "a-1".to_string() };
    assert_eq!(sync_err(ImportError::Core(inner())), inner());
    let e = sync_err(ImportError::Record { message: "bad".to_string() });
    assert!(e.to_string().contains("bad"));
}

#[test]
fn an_appended_document_passes_the_check() {
    let text = format!("# Notes\n\nschema:9 is not it\n{}", generate("1.2.3"));
    assert_eq!(extract_schema(&text), Some(1));
    assert_eq!(check(&text), Ok(()));
}

#[test]
fn the_configuration_is_read_up_to_its_first_table() {
    let config = "# clove\nid_prefix = \"proj\" # ours\nescaped = \"a\\\"b\"\ncount = 3\n\
                  [web]\nport = \"1\"\n";
    let value = |key: &str| config_value(config, key).unwrap();
    assert_eq!(value("id_prefix"), Some("proj".to_string()));
    assert_eq!(value("escaped"), Some("a\"b".to_string()));
    assert_eq!(value("port"), None);
    assert_eq!(config_value("", "id_prefix"), Ok(None));
    assert_eq!(
        config_value(config, "count"),
        Err(CloveError::InvalidField {
            field: "config.toml".to_string(),
            reason: "count must be a quoted string on one line".to_string(),
        })
    );
}

#[test]
fn both_forms_of_a_string_are_read() {
    let read = |value: &str| config_value(&format!("k = {value}\n"), "k").ok().flatten();
    assert_eq!(read("'a\\b \"c\"'"), Some("a\\b \"c\"".to_string()));
    assert_eq!(read("'x' # why"), Some("x".to_string()));
    assert_eq!(read("''"), Some(String::new()));
    assert_eq!(
        read(r#""\b\t\n\f\r\"\\""#),
        Some("\u{8}\t\n\u{c}\r\"\\".to_string())
    );
    assert_eq!(read(r#""\u00e9\U0001F340""#), Some("\u{e9}\u{1F340}".to_string()));
    // A surrogate, a number past the last character, a digit that is none, an unknown escape.
    assert_eq!(read(r#""\ud800""#), None);
    assert_eq!(read(r#""\U00110000""#), None);
    assert_eq!(read(r#""\u00g0""#), None);
    assert_eq!(read(r#""\q""#), None);
    // Unclosed, followed by something else, on several lines.
    assert_eq!(read("\"open"), None);
    assert_eq!(read("'open"), None);
    assert_eq!(read("\"a\" b"), None);
    assert_eq!(read("\"\"\"a\"\"\""), None);
}

#[test]
fn a_new_configuration_names_its_prefix() {
    let text = clove::cmd::init::render_config("proj2");
    assert_eq!(id_prefix(&text), Ok(Some("proj2".to_string())));
    assert_eq!(id_prefix("# nothing\n"), Ok(None));
    assert_eq!(
        id_prefix("id_prefix = 'Proj'\n"),
        Err(CloveError::InvalidField {
            field: "config.toml".to_string(),
            reason: "id_prefix `Proj` must match ^[a-z][a-z0-9]{0,7}$".to_string(),
        })
    );
}

#[test]
fn a_path_is_shown_relative_to_the_root() {
    assert_eq!(rel_to_root("/w", "/w/.clove/issues/a.md"), ".clove/issues/a.md");
    assert_eq!(rel_to_root("/w", "/w"), "");
    assert_eq!(rel_to_root("/w", "/elsewhere/a.md"), "/elsewhere/a.md");
    assert_eq!(rel_to_root("/w", "/wide/a.md"), "/wide/a.md");
}

#[test]
fn the_root_is_the_parent_of_the_directory() {
    assert_eq!(root_of("/w/.clove"), "/w");
    assert_eq!(root_of("w/x/.clove"), "w/x");
    assert_eq!(root_of(".clove"), "");
    assert_eq!(root_of("/"), ".");
}

#[test]
fn a_hub_that_goes_is_waited_for() {
    assert_eq!(stop_first(Some(7)), StopStep::SignalLegacy(7));
    assert_eq!(stop_first(None), StopStep::Detach);
    let answered =
        |detached, hub_exiting| DetachAttempt::Answered(Detached { detached, hub_exiting });
    assert_eq!(stop_next(&answered(true, true)), StopStep::AwaitHub);
    assert_eq!(stop_next(&answered(true, false)), StopStep::Report);
    assert_eq!(stop_next(&answered(false, true)), StopStep::Report);
    assert_eq!(stop_next(&DetachAttempt::NoHub), StopStep::Report);
    assert_eq!(stop_next(&DetachAttempt::Failed("down".to_string())), StopStep::Report);
}
