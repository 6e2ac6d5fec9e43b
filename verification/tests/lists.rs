//! Lists, queries, searches and single items.

use clove::cli::{ExportFormat, FilterArgs, QueryArgs, SearchArgs, SortField};
use clove::cmd::export::{args_failed, export_lines, export_text, shaped_objects, wrote_note, ArgsProblem, Found};
use clove::cmd::import::{
    emit_plan, import_err, parse_export_json, parse_export_jsonl, plan_restore, read_export,
    record_ids, records_to_write, report_of, ImportError,
};
use clove::cmd::index_read::{may_ask_daemon, may_ask_index, refresh, tier, Refresh, Source};
use clove::cmd::listing::{compact_read, emit, lean_can_serve, objects_from_answer, window, FullRow, LeanRow, ListOpts, Rows};
use clove::cmd::ls::{plan, run, ListAnswer, Projection};
use clove::cmd::query::{parse_filter, OneOrMany, Priorities};
use clove::cmd::show::{run as show, Shown};
use clove::error::CloveError;
use clove::exit::ExitCode;
use clove::item_json::Item;
use clove::json::Json;
use clove::output::{Out, OutputFormat};
use clove::ranking::{list_rows, search_order_of, search_rows};
use clove::view::{Filters, ItemStatus, ItemType, Page, Row};

fn words(items: &[&str]) -> Vec<String> {
    items.iter().map(|i| (*i).to_owned()).collect()
}

fn entries(text: &str) -> Vec<(String, Json)> {
    match Json::parse(text).unwrap() {
        Json::Object(map) => map,
        other => panic!("no object: {other:?}"),
    }
}

fn filter_args() -> FilterArgs {
    FilterArgs {
        status: vec![],
        item_type: vec![],
        label: vec![],
        assignee: None,
        priority: vec![],
        q: None,
        sort: None,
        desc: false,
        limit: None,
        offset: None,
        fields: None,
        compact: false,
    }
}

fn row(id: &str, title: &str, priority: u8, rank: u64, labels: &[&str]) -> Row {
    Row {
        id: id.to_owned(),
        title: title.to_owned(),
        status: ItemStatus::Open,
        item_type: ItemType::Bug,
        priority,
        labels: words(labels),
        assignee: None,
        created: 10,
        updated: 20 - rank as i64,
        rank,
    }
}

fn filters(status: &[&str], label: &[&str], q: Option<&str>) -> Filters {
    Filters::parse_multi(&words(status), &vec![], &words(label), None, &vec![], q).unwrap()
}

// ---- The window ---------------------------------------------------------------

#[test]
fn no_limit_is_a_hundred_and_zero_is_all() {
    assert_eq!(
        window(None, None),
        Page {
            offset: 0,
            limit: Some(100)
        }
    );
    assert_eq!(window(Some(3), Some(0)).limit, None);
    assert_eq!(window(Some(3), Some(0)).reported_limit(), 0);
    assert_eq!(window(None, Some(7)).limit, Some(7));
    assert_eq!(window(Some(8), Some(5)).bounds(10), (8, 10));
    assert_eq!(window(Some(80), Some(5)).bounds(10), (10, 10));
}

// ---- Filters ------------------------------------------------------------------

#[test]
fn a_bad_filter_value_is_a_validation_error() {
    let mut args = filter_args();
    args.status = words(&["open", "bogus"]);
    match args.filters().unwrap_err() {
        CloveError::InvalidField { field, reason } => {
            assert_eq!(field, "status");
            assert!(reason.contains("`bogus`"));
        }
        other => panic!("{other:?}"),
    }
    let mut args = filter_args();
    args.priority = vec![9];
    assert!(args.filters().is_err());
    let mut args = filter_args();
    args.item_type = words(&["story"]);
    assert!(plan(&args, false).is_err());
    let mut args = filter_args();
    args.sort = Some("size".to_owned());
    assert!(plan(&args, false).is_err());
}

#[test]
fn filters_are_canonical() {
    let mut args = filter_args();
    args.status = words(&["started"]);
    args.label = words(&["Area:iOS"]);
    args.priority = vec![0, 4];
    let f = args.filters().unwrap();
    assert_eq!(f.status, vec![ItemStatus::InProgress]);
    assert_eq!(f.label, words(&["area:ios"]));
    assert_eq!(f.priority, vec![0, 4]);
}

#[test]
fn labels_are_all_of_and_statuses_any_of() {
    let r = row("p-1", "Login", 1, 0, &["area:core", "area:ios"]);
    assert!(filters(&[], &["area:core", "AREA:IOS"], None).matches(&r));
    assert!(!filters(&[], &["area:core", "area:web"], None).matches(&r));
    assert!(filters(&["closed", "open"], &[], None).matches(&r));
    assert!(!filters(&["closed"], &[], None).matches(&r));
}

#[test]
fn q_reads_the_id_the_title_and_the_labels() {
    let r = row("p-1", "Login", 1, 0, &["ünicode-tag"]);
    assert!(filters(&[], &[], Some("LOG")).matches(&r));
    assert!(filters(&[], &[], Some("P-")).matches(&r));
    assert!(filters(&[], &[], Some("ÜNICODE")).matches(&r));
    assert!(!filters(&[], &[], Some("body")).matches(&r));
}

#[test]
fn an_assignee_is_matched_exactly() {
    let mut r = row("p-1", "Login", 1, 0, &[]);
    let f = Filters::parse_multi(&vec![], &vec![], &vec![], Some("me"), &vec![], None).unwrap();
    assert!(!f.matches(&r));
    r.assignee = Some("Me".to_owned());
    assert!(!f.matches(&r));
    r.assignee = Some("me".to_owned());
    assert!(f.matches(&r));
}

// ---- Order --------------------------------------------------------------------

#[test]
fn rank_is_priority_then_dependencies_then_id() {
    let rows = vec![
        row("p-c", "c", 1, 5, &[]),
        row("p-b", "b", 1, 5, &[]),
        row("p-a", "a", 2, 0, &[]),
        row("p-d", "d", 1, 2, &[]),
    ];
    let mut args = filter_args();
    let all = window(None, Some(0));
    let f = args.filters().unwrap();
    assert_eq!(
        list_rows(&f, args.order().unwrap(), all, &rows),
        (vec![3, 1, 0, 2], 4)
    );
    args.desc = true;
    assert_eq!(
        list_rows(&f, args.order().unwrap(), all, &rows).0,
        vec![2, 0, 1, 3]
    );
    args.sort = Some("updated".to_owned());
    args.desc = false;
    assert_eq!(
        list_rows(&f, args.order().unwrap(), window(None, Some(2)), &rows),
        (vec![1, 0], 4)
    );
}

#[test]
fn statuses_and_types_sort_as_they_are_declared() {
    let mut a = row("p-1", "a", 0, 0, &[]);
    a.status = ItemStatus::Closed;
    a.item_type = ItemType::Epic;
    let mut b = row("p-2", "b", 0, 0, &[]);
    b.status = ItemStatus::InProgress;
    b.item_type = ItemType::Feature;
    let rows = vec![a, b];
    for sort in ["status", "type"] {
        let mut args = filter_args();
        args.sort = Some(sort.to_owned());
        let f = args.filters().unwrap();
        assert_eq!(
            list_rows(&f, args.order().unwrap(), window(None, None), &rows).0,
            vec![1, 0],
            "{sort}"
        );
    }
    assert_eq!(SortField::Rank.as_str(), "rank");
}

#[test]
fn pages_cut_the_ordered_list() {
    let rows: Vec<Row> = (0..5).map(|i| row(&format!("p-{i}"), "t", 0, i, &[])).collect();
    let args = filter_args();
    let f = args.filters().unwrap();
    let order = args.order().unwrap();
    let mut seen = vec![];
    for offset in [0, 2, 4, 6] {
        let (page, total) = list_rows(&f, order, window(Some(offset), Some(2)), &rows);
        assert_eq!(total, 5);
        seen.extend(page);
    }
    assert_eq!(seen, vec![0, 1, 2, 3, 4]);
}

// ---- Search -------------------------------------------------------------------

#[test]
fn search_ranks_titles_then_labels_then_bodies() {
    let rows = vec![
        row("p-1", "other", 0, 0, &[]),
        row("p-2", "other", 0, 0, &["area:core"]),
        row("p-3", "the Core", 4, 0, &[]),
        row("p-4", "none", 0, 0, &[]),
        row("p-0", "other", 1, 0, &[]),
    ];
    let bodies = words(&["the corepart word", "", "", "nothing", "CORE"]);
    let order = search_order_of(None, false).unwrap();
    assert_eq!(order.reported_sort(), "relevance");
    assert_eq!(
        search_rows(order, &rows, &bodies, "core"),
        vec![2, 1, 0, 4]
    );
    let by_id = search_order_of(Some("id"), true).unwrap();
    assert_eq!(search_rows(by_id, &rows, &bodies, "core"), vec![2, 1, 0, 4]);
    assert_eq!(by_id.reported_sort(), "id");
    assert!(search_rows(order, &rows, &bodies, "\"a b\" OR c*").is_empty());
    assert!(search_order_of(Some("size"), false).is_err());
}

#[test]
fn a_search_echoes_no_filters() {
    let args = SearchArgs {
        text: "core".to_owned(),
        sort: None,
        desc: false,
        limit: None,
        offset: None,
        fields: None,
        compact: false,
    };
    let p = clove::cmd::search::plan(&args).unwrap();
    let rows = vec![row("p-1", "core", 0, 0, &[])];
    assert_eq!(
        clove::cmd::search::hits(&p, &rows, &words(&[""])),
        (vec![0], 1)
    );
    let out = clove::cmd::search::run(
        OutputFormat::Json,
        p,
        &Rows::Full(vec![FullRow {
            frontmatter: entries(r#"{"id":"p-1"}"#),
            blocked_by: None,
        }]),
        1,
        vec![],
    );
    let text = out[0].line();
    assert!(text.contains("\"sort\":\"relevance\"") && text.contains("\"source\":\"files\""));
    assert!(!text.contains("\"filters\""));
}

// ---- Rendering ----------------------------------------------------------------

fn lean() -> LeanRow {
    LeanRow {
        id: "p-1".to_owned(),
        status: "open".to_owned(),
        item_type: "bug".to_owned(),
        priority: 1,
        title: "Login".to_owned(),
    }
}

#[test]
fn a_list_has_the_same_line_from_every_tier() {
    let lean_objects = objects_from_answer(&Rows::Lean(vec![lean()]));
    let full_objects = objects_from_answer(&Rows::Full(vec![FullRow {
        frontmatter: entries(
            r#"{"id":"p-1","status":"open","type":"bug","priority":1,"title":"Login","schema":1}"#,
        ),
        blocked_by: Some(words(&["p-2"])),
    }]));
    let opts = ListOpts::default();
    let a = emit(OutputFormat::Human, &lean_objects, &opts);
    assert_eq!(a, emit(OutputFormat::Human, &full_objects, &opts));
    assert_eq!(a[0].line(), "p-1  [open] p1 bug  Login");
    assert!(emit(OutputFormat::Jsonl, &full_objects, &opts)[0]
        .line()
        .contains("\"blocked_by\":[\"p-2\"]"));
}

#[test]
fn a_list_reports_what_was_applied() {
    let mut args = filter_args();
    args.status = words(&["started"]);
    args.limit = Some(0);
    args.fields = Some("id, title".to_owned());
    let p = plan(&args, false).unwrap();
    assert_eq!(p.projection, Projection::Lean);
    let out = run(
        OutputFormat::Json,
        p,
        ListAnswer {
            rows: Rows::Lean(vec![lean()]),
            total: 12,
            source: Source::Index,
            warnings: words(&["w"]),
        },
    );
    let v = match &out[0] {
        Out::Json(v) => v,
        other => panic!("{other:?}"),
    };
    assert_eq!(
        v.get("data").unwrap().as_array().unwrap()[0],
        Json::Object(entries(r#"{"id":"p-1","title":"Login"}"#))
    );
    let meta = v.get("_meta").unwrap();
    assert_eq!(meta.get("total").unwrap().as_u64(), Some(12));
    assert_eq!(meta.get("limit").unwrap().as_u64(), Some(0));
    assert_eq!(meta.get("returned").unwrap().as_u64(), Some(1));
    assert_eq!(meta.get("source").unwrap().as_str(), Some("index"));
    assert_eq!(meta.get("sort").unwrap().as_str(), Some("rank"));
    assert_eq!(meta.get("dir").unwrap().as_str(), Some("asc"));
    assert_eq!(
        meta.get("filters").unwrap().get("status"),
        Some(&Json::Array(vec![Json::Text("in_progress".to_owned())]))
    );
}

#[test]
fn compaction_drops_nulls_empty_lists_and_the_schema() {
    let map = entries(r#"{"schema":1,"id":"p","labels":[],"parent":null,"deps":["x"],"n":0}"#);
    assert_eq!(
        compact_read(&map),
        entries(r#"{"id":"p","deps":["x"],"n":0}"#)
    );
}

#[test]
fn fields_outside_the_lean_row_pin_the_files() {
    assert!(lean_can_serve(None));
    assert!(lean_can_serve(Some(&words(&["id", "title"]))));
    assert!(!lean_can_serve(Some(&words(&["id", "body"]))));
    let mut args = filter_args();
    args.fields = Some("body".to_owned());
    assert_eq!(plan(&args, false).unwrap().projection, Projection::Files);
    assert_eq!(plan(&args, true).unwrap().projection, Projection::Full);
}

#[test]
fn ready_warns_people_on_stderr() {
    let answer = |_: ()| ListAnswer {
        rows: Rows::Lean(vec![]),
        total: 0,
        source: Source::Files,
        warnings: words(&["p-9 depends on p-0, which is missing"]),
    };
    let p = || plan(&filter_args(), false).unwrap();
    let told = clove::cmd::ready::run(OutputFormat::Human, p(), answer(()), false);
    assert_eq!(
        told,
        vec![Out::Note(
            "warning: p-9 depends on p-0, which is missing".to_owned()
        )]
    );
    assert!(clove::cmd::ready::run(OutputFormat::Human, p(), answer(()), true).is_empty());
}

// ---- Tiers --------------------------------------------------------------------

#[test]
fn the_tiers_fall_back_to_the_files() {
    assert_eq!(tier(false, true, true, true), Source::Daemon);
    assert_eq!(tier(false, true, false, true), Source::Index);
    assert_eq!(tier(false, true, false, false), Source::Files);
    assert_eq!(tier(true, true, true, true), Source::Files);
    assert_eq!(tier(false, false, true, true), Source::Files);
    assert!(!may_ask_daemon(true, true) && !may_ask_index(false, true, false));
    assert_eq!(refresh(true, 0), Refresh::Keep);
    assert_eq!(refresh(true, 20), Refresh::Apply);
    assert_eq!(refresh(true, 21), Refresh::Bypass);
    assert_eq!(refresh(false, 21), Refresh::Keep);
}

// ---- Queries ------------------------------------------------------------------

#[test]
fn one_value_and_a_list_of_one_mean_the_same() {
    assert_eq!(OneOrMany::values(&None), Vec::<String>::new());
    assert_eq!(
        OneOrMany::values(&Some(OneOrMany::One("open".to_owned()))),
        OneOrMany::values(&Some(OneOrMany::Many(words(&["open"]))))
    );
    assert_eq!(Priorities::values(&Some(Priorities::One(2))), words(&["2"]));
    assert_eq!(
        Priorities::values(&Some(Priorities::Many(vec![0, 1]))),
        words(&["0", "1"])
    );
    assert!(Priorities::values(&None).is_empty());
}

fn query_args() -> QueryArgs {
    QueryArgs {
        filter: None,
        fields: None,
        compact: false,
        sort: None,
        desc: false,
        limit: None,
        offset: None,
    }
}

#[test]
fn a_query_reads_the_whole_filter() {
    let text = r#"{"status":["open","started"],"type":"bug","label":["a"],"priority":[0,1],
        "assignee":"me","q":"login","sort":"updated","desc":true,"limit":3,"offset":2}"#;
    let p = clove::cmd::query::run(&query_args(), text).unwrap();
    assert_eq!(
        p.filters.status,
        vec![ItemStatus::Open, ItemStatus::InProgress]
    );
    assert_eq!(p.filters.item_type, vec![ItemType::Bug]);
    assert_eq!(p.filters.priority, vec![0, 1]);
    assert_eq!(p.filters.assignee.as_deref(), Some("me"));
    assert_eq!(p.filters.q.as_deref(), Some("login"));
    assert_eq!(p.order.field, SortField::Updated);
    assert!(p.order.desc);
    assert_eq!(
        p.window,
        Page {
            offset: 2,
            limit: Some(3)
        }
    );
}

#[test]
fn flags_win_over_the_filter() {
    let mut args = query_args();
    args.limit = Some(0);
    args.sort = Some("id".to_owned());
    let p = clove::cmd::query::run(&args, r#"{"limit":3,"sort":"updated"}"#).unwrap();
    assert_eq!(p.window.limit, None);
    assert_eq!(p.order.field, SortField::Id);
}

#[test]
fn a_blank_filter_asks_for_nothing() {
    let p = clove::cmd::query::run(&query_args(), " \n").unwrap();
    assert!(p.filters.status.is_empty() && p.filters.q.is_none());
    assert_eq!(p.window.limit, Some(100));
}

#[test]
fn a_bad_query_is_refused() {
    for text in [
        "{",
        "[]",
        r#"{"colour":"red"}"#,
        r#"{"status":3}"#,
        r#"{"status":["open",3]}"#,
        r#"{"priority":300}"#,
        r#"{"priority":"2"}"#,
        r#"{"desc":"yes"}"#,
        r#"{"limit":-1}"#,
    ] {
        match parse_filter(text).unwrap_err() {
            CloveError::InvalidField { field, reason } => {
                assert_eq!(field, "filter");
                assert!(reason.starts_with("invalid JSON filter: "), "{reason}");
            }
            other => panic!("{other:?}"),
        }
    }
    assert!(clove::cmd::query::run(&query_args(), r#"{"priority":9}"#).is_err());
}

// ---- One item -----------------------------------------------------------------

fn shown() -> Shown {
    Shown {
        item: Item {
            id: "p-1".to_owned(),
            status: "open".to_owned(),
            priority: 1,
            item_type: "bug".to_owned(),
            title: "Login".to_owned(),
            body: "Broken.\n\n".to_owned(),
            frontmatter: entries(r#"{"id":"p-1","schema":1,"labels":["a","b"]}"#),
        },
        assignee: None,
        labels: words(&["a", "b"]),
        deps: vec![],
        comment_count: 2,
        ready: false,
        blocked_by: words(&["p-2"]),
    }
}

#[test]
fn show_prints_a_page() {
    let lines: Vec<String> = show(OutputFormat::Human, &shown(), None, false)
        .iter()
        .map(|o| o.line())
        .collect();
    assert_eq!(
        lines,
        words(&[
            "p-1  Login",
            "  status:   open",
            "  type:     bug",
            "  priority: 1",
            "  labels:   a, b",
            "  ready:    false",
            "  comments: 2",
            "\nBroken.",
        ])
    );
}

#[test]
fn show_projects_and_compacts() {
    let fields = words(&["id", "ready", "schema"]);
    let out = show(OutputFormat::Json, &shown(), Some(&fields), true);
    assert!(out[0]
        .line()
        .contains("\"data\":{\"id\":\"p-1\",\"ready\":false}"));
}

// ---- Export and import --------------------------------------------------------

#[test]
fn an_export_is_read_back_as_it_was_written() {
    let items = || {
        vec![
            Json::Object(entries(r#"{"id":"p-1","schema":1}"#)),
            Json::Object(entries(r#"{"id":"p-2","schema":1}"#)),
        ]
    };
    let out = export_lines(ExportFormat::Json, items());
    let text = out[0].line();
    assert!(text.contains("\"clove_export\":{\"format\":1,\"item_schema\":1}"));
    let value = Json::parse(&text).unwrap();
    assert_eq!(read_export(&value).unwrap(), items());
    assert_eq!(export_lines(ExportFormat::Jsonl, items()).len(), 2);
}

#[test]
fn an_export_from_a_newer_clove_is_refused() {
    let value =
        Json::parse(r#"{"data":[],"_meta":{"clove_export":{"format":2,"item_schema":1}}}"#).unwrap();
    let err = read_export(&value).unwrap_err();
    assert!(matches!(err, ImportError::Incompatible { .. }));
    match import_err(err, "a.json") {
        CloveError::InvalidField { field, reason } => {
            assert_eq!(field, "import");
            assert!(reason.contains("upgrade"));
        }
        other => panic!("{other:?}"),
    }
    let broken = Json::parse(r#"{"data":3}"#).unwrap();
    match import_err(read_export(&broken).unwrap_err(), "a.json") {
        CloveError::Io { path, .. } => assert_eq!(path, "a.json"),
        other => panic!("{other:?}"),
    }
}

#[test]
fn an_export_has_every_item_in_the_order_of_a_list() {
    let found = |id: &str, blocked: Option<(Vec<String>, Vec<String>)>| Found {
        item: Item {
            id: id.to_owned(),
            status: "open".to_owned(),
            priority: 2,
            item_type: "task".to_owned(),
            title: "T".to_owned(),
            body: "B".to_owned(),
            frontmatter: entries(&format!("{{\"id\":\"{id}\"}}")),
        },
        comment_count: 1,
        ready: blocked.is_none(),
        blocked,
    };
    let rows =
        vec![row("p-b", "T", 2, 0, &[]), row("p-a", "T", 2, 7, &[]), row("p-c", "T", 0, 9, &[])];
    let all = vec![
        found("p-b", None),
        found("p-a", Some((words(&["p-b"]), words(&["p-x"])))),
        found("p-c", None),
    ];
    let shaped = shaped_objects(&rows, &all);
    let ids: Vec<_> = shaped.iter().map(|o| o.get("id").unwrap().as_str().unwrap()).collect();
    assert_eq!(ids, ["p-c", "p-b", "p-a"]);
    assert_eq!(
        shaped[2].to_text(),
        "{\"blocked_by\":[\"p-b\",\"p-x\"],\"body\":\"B\",\"comment_count\":1,\
         \"dangling_deps\":[\"p-x\"],\"id\":\"p-a\",\"ready\":false}"
    );
}

#[test]
fn the_text_of_an_export_restores_its_items() {
    let items = vec![
        Json::Object(entries(r#"{"body":"two\nlines \"quoted\"","id":"p-1","priority":2,"schema":1}"#)),
        Json::Object(entries(r#"{"deps":["p-1"],"id":"p-2","parent":null,"schema":1}"#)),
    ];
    let whole = export_text(ExportFormat::Json, &items);
    assert!(whole.ends_with("}\n"));
    assert_eq!(whole.lines().count(), 1);
    assert_eq!(parse_export_json(&whole).unwrap(), items);
    let lines = export_text(ExportFormat::Jsonl, &items);
    assert_eq!(lines.lines().count(), 2);
    assert_eq!(parse_export_jsonl(&lines).unwrap(), (items, vec![]));
    assert_eq!(export_text(ExportFormat::Jsonl, &vec![]), "");
}

#[test]
fn a_line_that_is_not_json_is_reported_and_left_out() {
    let (items, warnings) =
        parse_export_jsonl("{\"id\":\"p-1\"}\n\n  \nnot json\r\n{\"id\":\"p-2\"}").unwrap();
    assert_eq!(items.len(), 2);
    assert_eq!(warnings.len(), 1);
    assert!(warnings[0].starts_with("line 4: "));
    match parse_export_json("not json") {
        Err(ImportError::Record { .. }) => {}
        other => panic!("{other:?}"),
    }
}

#[test]
fn a_line_from_a_newer_clove_is_refused() {
    let err = parse_export_jsonl("{\"id\":\"p-1\",\"schema\":1}\n{\"id\":\"p-2\",\"schema\":2}\n");
    assert!(matches!(err, Err(ImportError::Incompatible { .. })));
    let whole = "{\"data\":[],\"_meta\":{\"clove_export\":{\"format\":1,\"item_schema\":2}}}";
    assert!(matches!(parse_export_json(whole), Err(ImportError::Incompatible { .. })));
}

#[test]
fn a_restore_skips_what_exists_unless_told_otherwise() {
    let ids = words(&["a", "b", "c"]);
    let existing = words(&["b"]);
    let p = plan_restore(&ids, &existing, false);
    assert_eq!(p.would_create, words(&["a", "c"]));
    assert_eq!(p.would_skip, words(&["b"]));
    assert!(p.would_overwrite.is_empty());
    let q = plan_restore(&ids, &existing, true);
    assert_eq!(q.would_overwrite, words(&["b"]));
    assert_eq!(
        emit_plan(OutputFormat::Human, &p, &vec![])[0].line(),
        "dry run: would create 2, skip 1, overwrite 0"
    );
}

#[test]
fn a_misplaced_global_flag_gets_a_hint() {
    let (out, exit) = args_failed(ArgsProblem::Unknown, "export", "json");
    assert_eq!(exit, ExitCode::Usage);
    assert!(out[0].line().contains("`clove export --format json json …`"));
    let (out, exit) = args_failed(ArgsProblem::Shown, "export", "json");
    assert_eq!((out.len(), exit), (0, ExitCode::Success));
    assert_eq!(args_failed(ArgsProblem::Other, "import", "json").1, ExitCode::Usage);
    assert_eq!(
        wrote_note(OutputFormat::Human, 3, "x.json")[0].line(),
        "wrote 3 items to x.json"
    );
    assert!(wrote_note(OutputFormat::Json, 3, "x.json").is_empty());
}

#[test]
fn a_restore_writes_what_is_new() {
    let items = parse_export_jsonl("{\"id\":\"a\"}\n{\"id\":\"b\"}\n{\"x\":1}\n").unwrap().0;
    let ids = record_ids(&items);
    assert_eq!(ids, words(&["a", "b"]));
    let known = words(&["b"]);
    let texts = |all: Vec<Json>| -> Vec<String> { all.iter().map(Json::to_text).collect() };
    assert_eq!(texts(records_to_write(&items, &known, false)), ["{\"id\":\"a\"}"]);
    assert_eq!(records_to_write(&items, &known, true).len(), 2);
    assert!(records_to_write(&items, &ids, false).is_empty());
    let report = report_of(&plan_restore(&ids, &known, false));
    assert_eq!((report.created, report.skipped, report.overwritten), (1, 1, 0));
}

#[test]
fn an_item_with_a_fraction_is_restored() {
    let item = Json::parse(r#"{"id":"a-1","weight":2.5,"big":1e300,"n":[-3,0.1]}"#).unwrap();
    let items = vec![item];
    let whole = export_text(ExportFormat::Json, &items);
    let read = parse_export_json(&whole).unwrap();
    assert_eq!(export_text(ExportFormat::Json, &read), whole);
    let lines = export_text(ExportFormat::Jsonl, &items);
    let (read, warnings) = parse_export_jsonl(&lines).unwrap();
    assert!(warnings.is_empty());
    assert_eq!(export_text(ExportFormat::Jsonl, &read), lines);
}
