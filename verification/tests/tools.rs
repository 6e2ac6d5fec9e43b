//! The tools that agents call.

use clove::cmd::mcp::tools::{
    arg_bool, arg_str, arg_u64, arg_usize, arg_window, blocked, call_tool, comment, dep_add,
    dep_args, dep_tree_args, edit, list, new_item, new_mentions, parse_filters, ready, req_str, search, show,
    stats_args, status, str_array, written, BlockedItem, NewChecks, Store, Tool, ToolError,
};
use clove::cmd::mcp::{names, run, Found};
use clove::cmd::show::Shown;
use clove::error::CloveError;
use clove::item_json::Item;
use clove::json::Json;
use clove::view::{ItemStatus, ItemType, Page, Row};

fn json(text: &str) -> Json {
    match Json::parse(text) {
        Ok(v) => v,
        Err(e) => panic!("{}", e),
    }
}

fn entries(text: &str) -> Vec<(String, Json)> {
    match json(text) {
        Json::Object(v) => v,
        other => panic!("{}", other.to_text()),
    }
}

fn words(items: &[&str]) -> Vec<String> {
    items.iter().map(|s| s.to_string()).collect()
}

fn item_row(id: &str, title: &str, status: ItemStatus, priority: u8, rank: u64) -> Row {
    Row {
        id: id.to_string(),
        title: title.to_string(),
        status,
        item_type: ItemType::Bug,
        priority,
        labels: words(&["core"]),
        assignee: None,
        created: 0,
        updated: 0,
        rank,
    }
}

/// Three items: `a-1` is urgent, `a-2` is closed, `a-3` mentions a crash in its body.
fn store() -> Store {
    Store {
        rows: vec![
            item_row("a-3", "Slow start", ItemStatus::Open, 3, 0),
            item_row("a-1", "Crash on load", ItemStatus::Open, 0, 0),
            item_row("a-2", "Old thing", ItemStatus::Closed, 2, 0),
        ],
        objects: vec![
            entries(r#"{"id":"a-3","title":"Slow start","assignee":null,"deps":[]}"#),
            entries(r#"{"id":"a-1","title":"Crash on load","assignee":"ada","deps":["a-2"]}"#),
            entries(r#"{"id":"a-2","title":"Old thing","assignee":null,"deps":[]}"#),
        ],
        bodies: words(&["A crash hides here.", "", ""]),
    }
}

fn ids(page: &Json) -> Vec<String> {
    let items = page.get("items").and_then(|v| v.as_array()).unwrap();
    items.iter().map(|v| v.get("id").and_then(|i| i.as_str()).unwrap().to_string()).collect()
}

fn count(page: &Json, key: &str) -> u64 {
    page.get(key).and_then(|v| v.as_u64()).unwrap()
}

#[test]
fn every_listed_tool_is_served() {
    let all = [
        Tool::Ready,
        Tool::Blocked,
        Tool::List,
        Tool::Show,
        Tool::Search,
        Tool::Comments,
        Tool::DepTree,
        Tool::Stats,
        Tool::New,
        Tool::Status,
        Tool::Edit,
        Tool::Comment,
        Tool::DepAdd,
        Tool::DepRemove,
        Tool::SetParent,
    ];
    let served: Vec<Result<Tool, ToolError>> = names().iter().map(|n| call_tool(n)).collect();
    assert_eq!(served.len(), all.len());
    for tool in all {
        assert!(served.contains(&Ok(tool)));
    }
    assert_eq!(call_tool("clove_frobnicate"), Err(ToolError::Unknown));
    assert_eq!(call_tool("ready"), Err(ToolError::Unknown));
}

#[test]
fn arguments_are_read_by_their_kind() {
    let args = json(r#"{"id":"a-1","limit":7,"flag":true,"labels":["x",3,"y"],"text":9}"#);
    assert_eq!(arg_str(&args, "id"), Some("a-1"));
    assert_eq!(arg_str(&args, "text"), None);
    assert_eq!(arg_u64(&args, "limit"), Some(7));
    assert_eq!(arg_usize(&args, "limit"), Some(7));
    assert_eq!(arg_u64(&args, "id"), None);
    assert!(arg_bool(&args, "flag", false));
    assert!(arg_bool(&args, "absent", true));
    assert!(!arg_bool(&args, "id", false));
    assert_eq!(str_array(&args, "labels"), words(&["x", "y"]));
    assert_eq!(str_array(&args, "id"), words(&[]));
    assert_eq!(req_str(&args, "id"), Ok("a-1"));
    assert_eq!(
        req_str(&args, "text"),
        Err(ToolError::Args("missing required argument `text`".to_string()))
    );
}

#[test]
fn the_tools_page_by_fifty() {
    assert_eq!(arg_window(&json("{}")), Page { offset: 0, limit: Some(50) });
    assert_eq!(arg_window(&json(r#"{"limit":0,"offset":4}"#)), Page { offset: 4, limit: None });
    assert_eq!(arg_window(&json(r#"{"limit":3}"#)), Page { offset: 0, limit: Some(3) });
}

#[test]
fn a_filter_takes_one_value_or_many() {
    let one = parse_filters(&json(r#"{"status":"open","priority":1}"#)).unwrap();
    let many = parse_filters(&json(r#"{"status":["open"],"priority":[1]}"#)).unwrap();
    assert_eq!(one, many);
    assert_eq!(one.status, vec![ItemStatus::Open]);
    assert_eq!(one.priority, vec![1]);
    assert!(parse_filters(&json(r#"{"status":"sleeping"}"#)).is_err());
    assert!(parse_filters(&json(r#"{"priority":9}"#)).is_err());
}

#[test]
fn a_list_is_a_page_of_compact_items() {
    let page = list(&store(), &json("{}")).unwrap();
    assert_eq!(ids(&page), words(&["a-1", "a-2", "a-3"]));
    assert_eq!(count(&page, "total"), 3);
    assert_eq!(count(&page, "returned"), 3);
    assert_eq!(count(&page, "offset"), 0);
    assert_eq!(count(&page, "limit"), 50);
    assert_eq!(page.get("sort").and_then(|v| v.as_str()), Some("rank"));
    assert_eq!(page.get("dir").and_then(|v| v.as_str()), Some("asc"));
    assert_eq!(page.get("source").and_then(|v| v.as_str()), Some("files"));
    let items = page.get("items").and_then(|v| v.as_array()).unwrap();
    assert_eq!(items[0].get("assignee").and_then(|v| v.as_str()), Some("ada"));
    assert!(items[1].get("assignee").is_none());
    assert!(items[1].get("deps").is_none());
}

#[test]
fn a_list_filters_sorts_pages_and_projects() {
    let args = json(r#"{"status":"open","sort":"id","desc":true,"limit":1,"offset":1}"#);
    let page = list(&store(), &args).unwrap();
    assert_eq!(count(&page, "total"), 2);
    assert_eq!(count(&page, "returned"), 1);
    assert_eq!(ids(&page), words(&["a-1"]));
    assert_eq!(page.get("dir").and_then(|v| v.as_str()), Some("desc"));
    let page = list(&store(), &json(r#"{"fields":["id"],"compact":false}"#)).unwrap();
    let items = page.get("items").and_then(|v| v.as_array()).unwrap();
    assert_eq!(items[0].to_text(), r#"{"id":"a-1"}"#);
    assert!(matches!(
        list(&store(), &json(r#"{"sort":"colour"}"#)),
        Err(ToolError::Clove(CloveError::InvalidField { .. }))
    ));
}

#[test]
fn ready_keeps_what_the_graph_calls_ready() {
    let page = ready(&store(), &json("{}"), &words(&["a-3", "zz"])).unwrap();
    assert_eq!(ids(&page), words(&["a-3"]));
    assert_eq!(count(&page, "total"), 1);
    let page = ready(&store(), &json(r#"{"priority":0}"#), &words(&["a-3"])).unwrap();
    assert_eq!(ids(&page), words(&[]));
}

#[test]
fn blocked_tells_what_an_item_waits_for() {
    let waits = vec![
        BlockedItem { id: "a-1".to_string(), blocking: words(&["a-3"]), dangling: words(&["zz"]) },
        BlockedItem { id: "a-3".to_string(), blocking: words(&[]), dangling: words(&["yy"]) },
    ];
    let page = blocked(&store(), &json("{}"), &waits).unwrap();
    assert_eq!(ids(&page), words(&["a-1"]));
    let items = page.get("items").and_then(|v| v.as_array()).unwrap();
    assert_eq!(items[0].get("blocked_by").unwrap().to_text(), r#"["a-3","zz"]"#);
    assert_eq!(items[0].get("dangling_deps").unwrap().to_text(), r#"["zz"]"#);
    let page = blocked(&store(), &json(r#"{"include_warnings":true}"#), &waits).unwrap();
    assert_eq!(ids(&page), words(&["a-1", "a-3"]));
}

#[test]
fn the_search_tool_puts_titles_first_and_echoes_no_filters() {
    let page = search(&store(), &json(r#"{"text":"CRASH"}"#)).unwrap();
    assert_eq!(ids(&page), words(&["a-1", "a-3"]));
    assert_eq!(page.get("sort").and_then(|v| v.as_str()), Some("relevance"));
    assert!(page.get("filters").is_none());
    assert_eq!(
        search(&store(), &json("{}")),
        Err(ToolError::Args("missing required argument `text`".to_string()))
    );
}

#[test]
fn the_show_tool_is_compact_unless_told_otherwise() {
    let shown = Shown {
        item: Item {
            id: "a-1".to_string(),
            status: "open".to_string(),
            priority: 0,
            item_type: "bug".to_string(),
            title: "Crash".to_string(),
            body: "text".to_string(),
            frontmatter: entries(r#"{"id":"a-1","assignee":null}"#),
        },
        assignee: None,
        labels: words(&[]),
        deps: words(&[]),
        comment_count: 2,
        ready: true,
        blocked_by: words(&[]),
    };
    let told = show(&json("{}"), &shown);
    assert!(told.get("assignee").is_none());
    assert_eq!(told.get("ready").and_then(|v| v.as_bool()), Some(true));
    assert_eq!(told.get("body").and_then(|v| v.as_str()), Some("text"));
    assert_eq!(count(&told, "comment_count"), 2);
    let told = show(&json(r#"{"compact":false}"#), &shown);
    assert_eq!(told.get("assignee"), Some(&Json::Null));
    let told = show(&json(r#"{"fields":["ready"]}"#), &shown);
    assert_eq!(told.to_text(), r#"{"ready":true}"#);
}

#[test]
fn tree_and_stats_have_their_defaults() {
    assert_eq!(dep_tree_args(&json(r#"{"id":"a-1"}"#)), Ok(("a-1".to_string(), 5)));
    assert_eq!(dep_tree_args(&json(r#"{"id":"a-1","depth":2}"#)), Ok(("a-1".to_string(), 2)));
    assert!(dep_tree_args(&json("{}")).is_err());
    let options = stats_args(&json("{}"));
    assert_eq!((options.top, options.include_epics), (10, true));
    let options = stats_args(&json(r#"{"top":0,"no_epics":true}"#));
    assert_eq!((options.top, options.include_epics), (0, false));
}

fn checks(labels: &[&str], deps: &[&str], parent: Option<&str>) -> NewChecks {
    NewChecks {
        labels: words(labels).into_iter().map(Ok).collect(),
        deps: words(deps).into_iter().map(Ok).collect(),
        parent: parent.map(|p| Ok(p.to_string())),
    }
}

#[test]
fn a_new_item_with_a_refused_label_or_id_is_refused() {
    let args = json(r#"{"title":"T"}"#);
    let no = |id: &str| CloveError::NotFound { id: id.to_string() };
    let mut all = checks(&["a"], &["b"], None);
    all.parent = Some(Err(no("parent")));
    assert_eq!(new_item(&args, all), Err(ToolError::Clove(no("parent"))));
    let mut all = checks(&["a"], &["b"], None);
    all.deps.push(Err(no("dep")));
    all.parent = Some(Err(no("parent")));
    assert_eq!(new_item(&args, all), Err(ToolError::Clove(no("dep"))));
    let mut all = checks(&["a"], &["b"], None);
    all.labels.push(Err(no("label")));
    all.labels.push(Err(no("later")));
    all.deps.push(Err(no("dep")));
    assert_eq!(new_item(&args, all), Err(ToolError::Clove(no("label"))));
}

#[test]
fn a_new_item_is_read_in_full() {
    let args = json(
        r#"{"title":"T","type":"epic","priority":4,"labels":["Zed","api","API"],
            "deps":["a-1"],"parent":"a-9","assignee":"ada","body":"B"}"#,
    );
    assert_eq!(
        new_mentions(&args),
        (words(&["Zed", "api", "API"]), words(&["a-1"]), Some("a-9".to_string()))
    );
    let item = new_item(&args, checks(&["zed", "api", "api"], &["a-1"], Some("a-9"))).unwrap();
    assert_eq!(item.title, "T");
    assert_eq!(item.item_type, Some(ItemType::Epic));
    assert_eq!(item.priority, 4);
    assert_eq!(item.labels, words(&["api", "zed"]));
    assert_eq!(item.deps, words(&["a-1"]));
    assert_eq!(item.parent, Some("a-9".to_string()));
    assert_eq!(item.assignee, Some("ada".to_string()));
    assert_eq!(item.body, "B");
}

#[test]
fn a_new_item_needs_a_title_and_valid_fields() {
    let item = new_item(&json(r#"{"title":"T"}"#), checks(&[], &[], None)).unwrap();
    assert_eq!((item.item_type, item.priority), (None, 2));
    assert_eq!(item.body, "");
    assert_eq!(
        new_item(&json("{}"), checks(&[], &[], None)),
        Err(ToolError::Args("missing required argument `title`".to_string()))
    );
    assert!(matches!(
        new_item(&json(r#"{"title":"T","type":"story"}"#), checks(&[], &[], None)),
        Err(ToolError::Clove(_))
    ));
    assert!(matches!(
        new_item(&json(r#"{"title":"T","priority":5}"#), checks(&[], &[], None)),
        Err(ToolError::Clove(_))
    ));
}

#[test]
fn writes_read_their_two_arguments() {
    let args = json(r#"{"id":"a-1","status":"closed","message":"hi","dep_id":"a-2"}"#);
    assert_eq!(status(&args), Ok(("a-1".to_string(), ItemStatus::Closed)));
    assert_eq!(comment(&args, Ok(true)), Ok(("a-1".to_string(), "hi".to_string())));
    assert_eq!(dep_args(&args), Ok(("a-1".to_string(), "a-2".to_string())));
    let bare = json(r#"{"id":"a-1"}"#);
    let missing = |key: &str| {
        ToolError::Args(format!("missing required argument `{}`", key))
    };
    assert_eq!(status(&bare), Err(missing("status")));
    assert_eq!(comment(&bare, Ok(true)), Err(missing("message")));
    let unknown = CloveError::NotFound { id: "a-1".to_string() };
    assert_eq!(comment(&bare, Ok(false)), Err(ToolError::Clove(unknown)));
    assert_eq!(dep_args(&bare), Err(missing("dep_id")));
    assert!(matches!(
        status(&json(r#"{"id":"a-1","status":"asleep"}"#)),
        Err(ToolError::Clove(_))
    ));
    assert_eq!(written("a-1", "p.md").to_text(), r#"{"id":"a-1","path":"p.md"}"#);
}

#[test]
fn a_dependency_is_refused_for_the_first_reason_that_holds() {
    let not_found = |id: &str| Err(CloveError::NotFound { id: id.to_string() });
    assert_eq!(dep_add("a", "b", false, false, true, true), not_found("a"));
    assert_eq!(dep_add("a", "b", true, false, true, true), not_found("b"));
    assert_eq!(
        dep_add("a", "a", true, true, true, true),
        Err(CloveError::SelfDependency { id: "a".to_string() })
    );
    assert!(matches!(
        dep_add("a", "b", true, true, true, true),
        Err(CloveError::DependencyCycle { .. })
    ));
    assert!(matches!(
        dep_add("a", "b", true, true, false, true),
        Err(CloveError::DependencyExists { .. })
    ));
    assert_eq!(dep_add("a", "b", true, true, false, false), Ok(()));
}

#[test]
fn an_edit_is_a_list_of_assignments() {
    let args = json(
        r#"{"status":"open","priority":1,"type":"bug","title":"N","assignee":null,
            "add_labels":["x","y"],"remove_labels":["z"]}"#,
    );
    assert_eq!(
        edit(&args),
        Ok(words(&[
            "status=open",
            "priority=1",
            "type=bug",
            "title=N",
            "assignee=",
            "labels+=x",
            "labels+=y",
            "labels-=z",
        ]))
    );
    assert_eq!(edit(&json("{}")), Err(ToolError::Args("no fields to edit".to_string())));
}

#[test]
fn the_server_starts_before_there_is_a_repository() {
    let found = Found::Repository { root: "/r".to_string(), clove_dir: "/r/.clove".to_string() };
    assert_eq!(run(found, "/w"), Ok(("/r".to_string(), "/r/.clove".to_string())));
    let none = Found::Failed(CloveError::NoRepo { searched: "/w".to_string() });
    assert_eq!(run(none, "/w"), Ok(("/w".to_string(), "/w/.clove".to_string())));
    let broken = CloveError::Registry { message: "no".to_string() };
    let again = CloveError::Registry { message: "no".to_string() };
    assert_eq!(run(Found::Failed(broken), "/w"), Err(again));
}
