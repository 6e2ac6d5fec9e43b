//! `clove setup`: wires clove into a coding assistant.
//!
//! It puts the server and the permissions of its tools into `settings.json`, writes the
//! directives for agents into `CLOVE.md`, and has the assistant's memory file import them.
//! Doing it again changes nothing.

use vstd::prelude::*;

use crate::cmd::mcp::{names, tool_names};
use crate::error::{invalid, invalid_field, CloveError, ErrorView};
use crate::item_json::copy_entries;
use crate::json::{
    entries, index_of, insert, law_distinct_pairs_are_members, law_put_then_lookup,
    lemma_lookup_found, lemma_put_rises, lookup, obj, object, put, put_all, rising, string,
    strings, texts, Json, JsonView,
};
use crate::json_text::{
    json_parsed, json_pretty, law_ordering_keeps_what_is_under_a_key, lemma_ordered_items_at,
    lemma_like_lookup, lemma_ordered_shallow, lemma_put_shallow, lemma_shallow_entries,
    lemma_shallow_grows, like, orderly, ordered, ordered_entries, ordered_items, reads_like, shallow,
};
use crate::lines::{contains_line, has_line, is_plain_line, law_a_written_line_is_there};
use crate::output::{
    law_a_success_carries_its_data, meta_without_warnings, pairs, success, success_envelope,
    warnings_meta, Out, OutView, OutputFormat,
};
use crate::path::{component, extends, is_component};
use crate::text;

verus! {

/// The directives for agents.
pub const CLOVE_MD_CONTENT: &'static str = "# clove\n\nThis repository uses **clove** — a git-native, dependency-aware work-item\ntracker — as the source of truth for tasks, bugs, and features. Prefer it over\nad-hoc TODO lists or scratch notes for anything that spans more than a single\nstep.\n\n- **Check before starting** — at the start of any multi-step task, run\n  `clove ready` (unblocked work) and `clove search <text>` / `clove list` to find\n  related items *before* creating new ones. The `clove_ready` / `clove_search` /\n  `clove_list` MCP tools do the same.\n- **File work as items** — capture new tasks/bugs/features with\n  `clove new <title> [--type bug|feature|chore|docs|epic] [-p 0-4] [--dep ID]\n  [--parent ID]` instead of loose notes, so the work is tracked and shareable.\n- **Record progress** — transition items with\n  `clove status <id> <open|in_progress|closed>` (aliases `start` / `close`) and\n  capture findings with `clove comment <id> <message>` as you go.\n- **Respect the graph** — wire blocking relationships with\n  `clove dep add <id> <dep-id>`; use `clove blocked` and `clove dep tree <id>` to\n  see what is waiting on what. An item is *ready* when it is open and every hard\n  dependency is closed.\n- **Full reference** — run `clove agent-doc` for the complete command surface,\n  the `{ v, ok, data, _meta }` JSON envelope, and exit codes.\n";

/// The line that imports the directives.
pub const CLOVE_MD_REF: &'static str = "@CLOVE.md";

// ---- Where it goes ------------------------------------------------------------

/// A coding assistant: what it is called, the directory that it reads in a project and in
/// the home directory, and the memory file in there.
#[derive(Debug, PartialEq, Eq)]
pub struct Assistant {
    pub name: String,
    pub dir: String,
    pub memory_file: String,
}

impl Assistant {
    /// The directory and the file are one component of a path each.
    pub open spec fn wf(self) -> bool {
        is_component(self.dir@) && is_component(self.memory_file@)
    }

    /// An assistant; none if its directory or its file is not one component of a path.
    pub fn new(name: &str, dir: &str, memory_file: &str) -> (r: Option<Assistant>)
        ensures
            match r {
                Some(a) => a.wf() && a.name@ == name@ && a.dir@ == dir@ && a.memory_file@
                    == memory_file@,
                None => !is_component(dir@) || !is_component(memory_file@),
            },
    {
        if component(dir) && component(memory_file) {
            Some(
                Assistant {
                    name: name.to_owned(),
                    dir: dir.to_owned(),
                    memory_file: memory_file.to_owned(),
                },
            )
        } else {
            None
        }
    }
}

/// Chooses the assistant's directory: the one that is named, else the one in the home
/// directory with `--global`, else the one in the project. `home_var` is the variable that
/// names the home directory.
pub fn resolve_claude_dir(
    project_dir: &str,
    global: bool,
    claude_dir_override: Option<&str>,
    home: Option<&str>,
    home_var: &str,
    assistant: &Assistant,
) -> (r: Result<String, CloveError>)
    requires
        assistant.wf(),
    ensures
        match r {
            Ok(dir) => match claude_dir_override {
                Some(d) => dir@ == d@,
                None => if global {
                    home matches Some(h) && extends(h@, assistant.dir@, dir@)
                } else {
                    extends(project_dir@, assistant.dir@, dir@)
                },
            },
            Err(e) => claude_dir_override is None && global && home is None && e.deep_view()
                == invalid_field(
                "--global"@,
                "cannot resolve the home directory: $"@ + home_var@ + " is not set"@,
            ),
        },
{
    if let Some(d) = claude_dir_override {
        return Ok(d.to_owned());
    }
    if global {
        match home {
            Some(h) => Ok(crate::path::join(h, assistant.dir.as_str())),
            None => Err(
                invalid(
                    "--global",
                    text::cat3("cannot resolve the home directory: $", home_var, " is not set"),
                ),
            ),
        }
    } else {
        Ok(crate::path::join(project_dir, assistant.dir.as_str()))
    }
}

/// The files that are written.
#[derive(Debug, PartialEq, Eq)]
pub struct SetupFiles {
    pub settings: String,
    pub clove_md: String,
    pub claude_md: String,
}

/// The files in the assistant's directory.
pub fn files_in(claude_dir: &str, assistant: &Assistant) -> (r: SetupFiles)
    requires
        assistant.wf(),
    ensures
        extends(claude_dir@, "settings.json"@, r.settings@),
        extends(claude_dir@, "CLOVE.md"@, r.clove_md@),
        extends(claude_dir@, assistant.memory_file@, r.claude_md@),
{
    proof {
        reveal_strlit("settings.json");
        reveal_strlit("CLOVE.md");
    }
    SetupFiles {
        settings: crate::path::join(claude_dir, "settings.json"),
        clove_md: crate::path::join(claude_dir, "CLOVE.md"),
        claude_md: crate::path::join(claude_dir, assistant.memory_file.as_str()),
    }
}

// ---- The settings -------------------------------------------------------------

/// The name of a JSON type.
pub open spec fn kind_word(v: JsonView) -> Seq<char> {
    match v {
        JsonView::Null => "null"@,
        JsonView::Bool(_) => "boolean"@,
        JsonView::Number(_) => "number"@,
        JsonView::Text(_) => "string"@,
        JsonView::Array(_) => "array"@,
        JsonView::Object(_) => "object"@,
    }
}

fn json_type_name(v: &Json) -> (r: &'static str)
    ensures
        r@ == kind_word(v.shape()),
{
    match v {
        Json::Null => "null",
        Json::Bool(_) => "boolean",
        Json::Number(_) => "number",
        Json::Text(_) => "string",
        Json::Array(_) => "array",
        Json::Object(_) => "object",
    }
}

/// The error of a key with the wrong type; it names the file and the key.
pub open spec fn bad_shape(
    path: Seq<char>,
    key_path: Seq<char>,
    expected: Seq<char>,
    found: JsonView,
) -> ErrorView {
    invalid_field(
        "settings.json:"@ + key_path,
        path + ": expected \""@ + key_path + "\" to be a JSON "@ + expected + ", found "@
            + kind_word(found) + " — fix or remove the key and re-run `clove setup`"@,
    )
}

fn shape_error(path: &str, key_path: &str, expected: &str, found: &Json) -> (r: CloveError)
    ensures
        r.deep_view() == bad_shape(path@, key_path@, expected@, found.shape()),
{
    let mut reason = text::cat7(
        path,
        ": expected \"",
        key_path,
        "\" to be a JSON ",
        expected,
        ", found ",
        json_type_name(found),
    );
    reason.append(" — fix or remove the key and re-run `clove setup`");
    CloveError::InvalidField { field: text::cat2("settings.json:", key_path), reason }
}

/// Is a value empty, so that replacing it loses nothing?
pub open spec fn is_empty_value(v: JsonView) -> bool {
    v == JsonView::Null || v == JsonView::Array(Seq::empty()) || v == JsonView::Object(Seq::empty())
}

fn is_semantically_empty(v: &Json) -> (r: bool)
    ensures
        r == is_empty_value(v.shape()),
{
    match v {
        Json::Null => true,
        Json::Array(a) => {
            proof {
                crate::json::lemma_array_shape(*a);
                assert(a.deep_view().len() == a.len());
                if a.len() == 0 {
                    assert(a.deep_view() =~= Seq::empty());
                }
            }
            a.len() == 0
        },
        Json::Object(o) => {
            proof {
                crate::json::lemma_object_shape(*o);
                assert(entries(o@).len() == o.len());
                if o.len() == 0 {
                    assert(entries(o@) =~= Seq::empty());
                }
            }
            o.len() == 0
        },
        _ => false,
    }
}

/// The settings that a text holds; a missing file is an empty object.
pub open spec fn settings_in(contents: Option<Seq<char>>, path: Seq<char>) -> Result<
    Seq<(Seq<char>, JsonView)>,
    ErrorView,
> {
    match contents {
        None => Ok(Seq::empty()),
        Some(s) => match json_parsed(s) {
            Err(e) => Err(
                invalid_field(
                    "settings.json"@,
                    path + ": not valid JSON ("@ + e + ") — fix the file and re-run `clove setup`"@,
                ),
            ),
            Ok(JsonView::Object(e)) => Ok(e),
            Ok(v) => Err(
                invalid_field(
                    "settings.json"@,
                    path + ": expected the top-level value to be a JSON object, found "@ + kind_word(
                        v,
                    ) + " — fix the file and re-run `clove setup`"@,
                ),
            ),
        },
    }
}

/// Reads the settings. What is no JSON object is refused, never replaced.
pub fn read_settings(contents: Option<&str>, path: &str) -> (r: Result<
    Vec<(String, Json)>,
    CloveError,
>)
    ensures
        match r {
            Ok(map) => settings_in(text::opt_view(contents), path@) == Ok::<
                Seq<(Seq<char>, JsonView)>,
                ErrorView,
            >(entries(map@)) && orderly(JsonView::Object(entries(map@))) && shallow(
                JsonView::Object(entries(map@)),
                127,
            ),
            Err(e) => settings_in(text::opt_view(contents), path@) == Err::<
                Seq<(Seq<char>, JsonView)>,
                ErrorView,
            >(e.deep_view()),
        },
{
    match contents {
        None => {
            let map: Vec<(String, Json)> = Vec::new();
            assert(entries(map@) =~= Seq::empty());
            Ok(map)
        },
        Some(s) => match Json::parse(s) {
            Err(e) => Err(
                invalid(
                    "settings.json",
                    text::cat4(
                        path,
                        ": not valid JSON (",
                        e.as_str(),
                        ") — fix the file and re-run `clove setup`",
                    ),
                ),
            ),
            Ok(v) => match v {
                Json::Object(map) => {
                    proof {
                        crate::json::lemma_object_shape(map);
                    }
                    Ok(map)
                },
                other => Err(
                    invalid(
                        "settings.json",
                        text::cat4(
                            path,
                            ": expected the top-level value to be a JSON object, found ",
                            json_type_name(&other),
                            " — fix the file and re-run `clove setup`",
                        ),
                    ),
                ),
            },
        },
    }
}

/// The object under a key: a new one where there is none or only an empty value.
pub open spec fn object_slot(
    e: Seq<(Seq<char>, JsonView)>,
    key: Seq<char>,
    key_path: Seq<char>,
    path: Seq<char>,
) -> Result<Seq<(Seq<char>, JsonView)>, ErrorView> {
    match lookup(e, key) {
        None => Ok(Seq::empty()),
        Some(v) => match v {
            JsonView::Object(o) => Ok(o),
            _ => if is_empty_value(v) {
                Ok(Seq::empty())
            } else {
                Err(bad_shape(path, key_path, "object"@, v))
            },
        },
    }
}

fn ensure_object_entry(
    map: &Vec<(String, Json)>,
    key: &str,
    key_path: &str,
    path: &str,
) -> (r: Result<Vec<(String, Json)>, CloveError>)
    ensures
        match r {
            Ok(o) => object_slot(entries(map@), key@, key_path@, path@) == Ok::<
                Seq<(Seq<char>, JsonView)>,
                ErrorView,
            >(entries(o@)),
            Err(e) => object_slot(entries(map@), key@, key_path@, path@) == Err::<
                Seq<(Seq<char>, JsonView)>,
                ErrorView,
            >(e.deep_view()),
        },
{
    let fresh: Vec<(String, Json)> = Vec::new();
    assert(entries(fresh@) =~= Seq::empty());
    match index_of(map, key) {
        None => Ok(fresh),
        Some(i) => match &map[i].1 {
            Json::Object(o) => {
                proof {
                    crate::json::lemma_object_shape(*o);
                }
                Ok(copy_entries(o))
            },
            other => if is_semantically_empty(other) {
                Ok(fresh)
            } else {
                Err(shape_error(path, key_path, "object", other))
            },
        },
    }
}

/// The array under a key: a new one where there is none or only an empty value.
pub open spec fn array_slot(
    e: Seq<(Seq<char>, JsonView)>,
    key: Seq<char>,
    key_path: Seq<char>,
    path: Seq<char>,
) -> Result<Seq<JsonView>, ErrorView> {
    match lookup(e, key) {
        None => Ok(Seq::empty()),
        Some(v) => match v {
            JsonView::Array(a) => Ok(a),
            _ => if is_empty_value(v) {
                Ok(Seq::empty())
            } else {
                Err(bad_shape(path, key_path, "array"@, v))
            },
        },
    }
}

fn copy_values(v: &Vec<Json>) -> (r: Vec<Json>)
    ensures
        r.deep_view() == v.deep_view(),
{
    let mut out: Vec<Json> = Vec::new();
    let mut i: usize = 0;
    while i < v.len()
        invariant
            i <= v.len(),
            out.len() == i,
            forall|j: int| 0 <= j < i ==> (#[trigger] out@[j]).shape() == v@[j].shape(),
        decreases v.len() - i,
    {
        out.push(v[i].copy());
        i += 1;
    }
    assert(out.deep_view() =~= v.deep_view());
    out
}

fn ensure_array_entry(
    map: &Vec<(String, Json)>,
    key: &str,
    key_path: &str,
    path: &str,
) -> (r: Result<Vec<Json>, CloveError>)
    ensures
        match r {
            Ok(a) => array_slot(entries(map@), key@, key_path@, path@) == Ok::<
                Seq<JsonView>,
                ErrorView,
            >(a.deep_view()),
            Err(e) => array_slot(entries(map@), key@, key_path@, path@) == Err::<
                Seq<JsonView>,
                ErrorView,
            >(e.deep_view()),
        },
{
    let fresh: Vec<Json> = Vec::new();
    assert(fresh.deep_view() =~= Seq::empty());
    match index_of(map, key) {
        None => Ok(fresh),
        Some(i) => match &map[i].1 {
            Json::Array(a) => {
                proof {
                    crate::json::lemma_array_shape(*a);
                }
                Ok(copy_values(a))
            },
            other => if is_semantically_empty(other) {
                Ok(fresh)
            } else {
                Err(shape_error(path, key_path, "array", other))
            },
        },
    }
}

/// The permission of a tool.
pub open spec fn permission(tool: Seq<char>) -> JsonView {
    JsonView::Text("mcp__clove__"@ + tool)
}

/// The permissions that are missing, in the order of the tools.
pub open spec fn missing(allow: Seq<JsonView>, tools: Seq<Seq<char>>) -> Seq<JsonView>
    decreases tools.len(),
{
    if tools.len() == 0 {
        Seq::empty()
    } else {
        let rest = missing(allow, tools.drop_last());
        if allow.contains(permission(tools.last())) {
            rest
        } else {
            rest.push(permission(tools.last()))
        }
    }
}

fn has_permission(allow: &Vec<Json>, perm: &str) -> (r: bool)
    ensures
        r == allow.deep_view().contains(JsonView::Text(perm@)),
{
    let ghost all = allow.deep_view();
    let mut i: usize = 0;
    while i < allow.len()
        invariant
            i <= allow.len(),
            all == allow.deep_view(),
            forall|j: int| 0 <= j < i ==> #[trigger] all[j] != JsonView::Text(perm@),
        decreases allow.len() - i,
    {
        assert(all[i as int] == allow@[i as int].shape());
        if let Some(s) = allow[i].as_str() {
            if text::same(s, perm) {
                assert(all[i as int] == JsonView::Text(perm@));
                return true;
            }
        }
        i += 1;
    }
    false
}

/// Adds the permissions that are missing; says whether any was.
fn add_missing(allow: Vec<Json>) -> (r: (Vec<Json>, bool))
    ensures
        r.0.deep_view() == allow.deep_view() + missing(allow.deep_view(), tool_names()),
        r.1 == (missing(allow.deep_view(), tool_names()).len() > 0),
{
    let ghost start = allow.deep_view();
    let tools = names();
    let ghost all = tools.deep_view();
    let mut more: Vec<Json> = Vec::new();
    let mut i: usize = 0;
    assert(more.deep_view() =~= missing(start, all.take(0)));
    while i < tools.len()
        invariant
            i <= tools.len(),
            all == tools.deep_view(),
            start == allow.deep_view(),
            more.deep_view() == missing(start, all.take(i as int)),
        decreases tools.len() - i,
    {
        let ghost prev = more.deep_view();
        assert(all.take(i + 1).drop_last() =~= all.take(i as int));
        assert(all[i as int] == tools@[i as int]@);
        let perm = text::cat2("mcp__clove__", tools[i].as_str());
        if !has_permission(&allow, perm.as_str()) {
            more.push(string(perm.as_str()));
            assert(more.deep_view() =~= prev.push(permission(all[i as int])));
        }
        i += 1;
    }
    assert(all.take(i as int) =~= all);
    let ghost extra = more.deep_view();
    assert(extra.len() == more.len());
    let any = more.len() > 0;
    let mut out = allow;
    let mut k: usize = 0;
    while k < more.len()
        invariant
            k <= more.len(),
            extra == more.deep_view(),
            out.deep_view() == start + extra.take(k as int),
        decreases more.len() - k,
    {
        let ghost prev = out.deep_view();
        assert(extra[k as int] == more@[k as int].shape());
        out.push(more[k].copy());
        assert(out.deep_view() =~= prev.push(extra[k as int]));
        assert(extra.take(k + 1) =~= extra.take(k as int).push(extra[k as int]));
        assert(out.deep_view() =~= start + extra.take(k + 1));
        k += 1;
    }
    assert(extra.take(k as int) =~= extra);
    (out, any)
}

/// The entry of the server.
pub open spec fn server_entry() -> JsonView {
    obj(seq![("command"@, JsonView::Text("clove"@)), ("args"@, texts(seq!["mcp"@]))])
}

fn server_json() -> (r: Json)
    ensures
        r.shape() == server_entry(),
{
    let args: Vec<String> = vec!["mcp".to_owned()];
    assert(args.deep_view() =~= seq!["mcp"@]);
    let v: Vec<(String, Json)> = vec![
        ("command".to_owned(), string("clove")),
        ("args".to_owned(), strings(&args)),
    ];
    assert(pairs(v@) =~= seq![
        ("command"@, JsonView::Text("clove"@)),
        ("args"@, texts(seq!["mcp"@])),
    ]);
    object(v)
}

/// The servers, with clove's among them.
pub open spec fn with_server(servers: Seq<(Seq<char>, JsonView)>) -> Seq<(Seq<char>, JsonView)> {
    if lookup(servers, "clove"@) is Some {
        servers
    } else {
        put(servers, "clove"@, server_entry())
    }
}

/// The settings with the server registered and its tools allowed, and whether that changed
/// anything. A key of the wrong type is refused.
pub open spec fn merged(e: Seq<(Seq<char>, JsonView)>, path: Seq<char>) -> Result<
    (Seq<(Seq<char>, JsonView)>, bool),
    ErrorView,
> {
    match object_slot(e, "mcpServers"@, "mcpServers"@, path) {
        Err(x) => Err(x),
        Ok(servers) => {
            let one = put(e, "mcpServers"@, JsonView::Object(with_server(servers)));
            match object_slot(one, "permissions"@, "permissions"@, path) {
                Err(x) => Err(x),
                Ok(permissions) => match array_slot(
                    permissions,
                    "allow"@,
                    "permissions.allow"@,
                    path,
                ) {
                    Err(x) => Err(x),
                    Ok(allow) => {
                        let more = missing(allow, tool_names());
                        let allowed = put(permissions, "allow"@, JsonView::Array(allow + more));
                        Ok(
                            (
                                put(one, "permissions"@, JsonView::Object(allowed)),
                                lookup(servers, "clove"@) is None || more.len() > 0,
                            ),
                        )
                    },
                },
            }
        },
    }
}

/// Registers the server and allows its tools, next to whatever the settings hold.
pub fn merge_settings(settings: Vec<(String, Json)>, path: &str) -> (r: Result<
    (Vec<(String, Json)>, bool),
    CloveError,
>)
    ensures
        match r {
            Ok((map, changed)) => merged(entries(settings@), path@) == Ok::<
                (Seq<(Seq<char>, JsonView)>, bool),
                ErrorView,
            >((entries(map@), changed)),
            Err(e) => merged(entries(settings@), path@) == Err::<
                (Seq<(Seq<char>, JsonView)>, bool),
                ErrorView,
            >(e.deep_view()),
        },
{
    let mut root = settings;
    let mut servers = match ensure_object_entry(&root, "mcpServers", "mcpServers", path) {
        Ok(s) => s,
        Err(e) => return Err(e),
    };
    let absent = index_of(&servers, "clove").is_none();
    if absent {
        insert(&mut servers, "clove".to_owned(), server_json());
    }
    proof {
        crate::json::lemma_object_shape(servers);
    }
    insert(&mut root, "mcpServers".to_owned(), Json::Object(servers));
    let mut permissions = match ensure_object_entry(&root, "permissions", "permissions", path) {
        Ok(p) => p,
        Err(e) => return Err(e),
    };
    let allow = match ensure_array_entry(&permissions, "allow", "permissions.allow", path) {
        Ok(a) => a,
        Err(e) => return Err(e),
    };
    let (allowed, added) = add_missing(allow);
    proof {
        crate::json::lemma_array_shape(allowed);
    }
    insert(&mut permissions, "allow".to_owned(), Json::Array(allowed));
    proof {
        crate::json::lemma_object_shape(permissions);
    }
    insert(&mut root, "permissions".to_owned(), Json::Object(permissions));
    Ok((root, absent || added))
}

proof fn lemma_missing(allow: Seq<JsonView>, tools: Seq<Seq<char>>, i: int)
    requires
        0 <= i < tools.len(),
    ensures
        (allow + missing(allow, tools)).contains(permission(tools[i])),
    decreases tools.len(),
{
    let init = tools.drop_last();
    let perm = permission(tools[i]);
    let all = allow + missing(allow, tools);
    if allow.contains(perm) {
        let k = choose|k: int| 0 <= k < allow.len() && allow[k] == perm;
        assert(all[k] == perm);
    } else if i < init.len() {
        lemma_missing(allow, init, i);
        let less = allow + missing(allow, init);
        let k = choose|k: int| 0 <= k < less.len() && less[k] == perm;
        assert(all[k] == less[k]);
    } else {
        assert(all[all.len() - 1] == perm);
    }
}

proof fn lemma_nothing_missing(allow: Seq<JsonView>, tools: Seq<Seq<char>>)
    requires
        forall|i: int| 0 <= i < tools.len() ==> allow.contains(permission(#[trigger] tools[i])),
    ensures
        missing(allow, tools).len() == 0,
    decreases tools.len(),
{
    if tools.len() > 0 {
        let init = tools.drop_last();
        assert(allow.contains(permission(tools[tools.len() - 1])));
        assert forall|i: int| 0 <= i < init.len() implies allow.contains(
            permission(#[trigger] init[i]),
        ) by {
            assert(init[i] == tools[i]);
        }
        lemma_nothing_missing(allow, init);
    }
}

/// Registering again changes nothing.
pub proof fn law_settings_are_merged_once(e: Seq<(Seq<char>, JsonView)>, path: Seq<char>)
    ensures
        merged(e, path) matches Ok((next, _)) ==> (merged(next, path) matches Ok((_, changed))
            && !changed),
{
    if let Ok((next, _)) = merged(e, path) {
        reveal_strlit("mcpServers");
        reveal_strlit("permissions");
        assert("mcpServers"@.len() != "permissions"@.len());
        let servers = object_slot(e, "mcpServers"@, "mcpServers"@, path)->Ok_0;
        let one = put(e, "mcpServers"@, JsonView::Object(with_server(servers)));
        let permissions = object_slot(one, "permissions"@, "permissions"@, path)->Ok_0;
        let allow = array_slot(permissions, "allow"@, "permissions.allow"@, path)->Ok_0;
        let all = allow + missing(allow, tool_names());
        let allowed = put(permissions, "allow"@, JsonView::Array(all));
        law_put_then_lookup(
            e,
            "mcpServers"@,
            JsonView::Object(with_server(servers)),
            "mcpServers"@,
        );
        law_put_then_lookup(servers, "clove"@, server_entry(), "clove"@);
        law_put_then_lookup(
            one,
            "permissions"@,
            JsonView::Object(allowed),
            "mcpServers"@,
        );
        law_put_then_lookup(permissions, "allow"@, JsonView::Array(all), "allow"@);
        let again = with_server(with_server(servers));
        assert(again == with_server(servers));
        law_put_then_lookup(next, "mcpServers"@, JsonView::Object(again), "permissions"@);
        assert forall|i: int| 0 <= i < tool_names().len() implies all.contains(
            permission(#[trigger] tool_names()[i]),
        ) by {
            lemma_missing(allow, tool_names(), i);
        }
        lemma_nothing_missing(all, tool_names());
    }
}

/// The settings as they are read from the text that was written of them.
pub open spec fn reread(e: Seq<(Seq<char>, JsonView)>) -> Seq<(Seq<char>, JsonView)> {
    put_all(ordered_entries(e))
}

proof fn lemma_reread(e: Seq<(Seq<char>, JsonView)>, key: Seq<char>)
    requires
        rising(e),
    ensures
        lookup(reread(e), key) == (match lookup(e, key) {
            Some(v) => Some(ordered(v)),
            None => None,
        }),
{
    law_ordering_keeps_what_is_under_a_key(e, key);
    assert(ordered(JsonView::Object(e)) == JsonView::Object(reread(e)));
}

proof fn lemma_orderly_slot(
    e: Seq<(Seq<char>, JsonView)>,
    key: Seq<char>,
    key_path: Seq<char>,
    path: Seq<char>,
)
    requires
        orderly(JsonView::Object(e)),
    ensures
        object_slot(e, key, key_path, path) matches Ok(o) ==> orderly(JsonView::Object(o)),
{
    let i = lemma_lookup_found(e, key);
    if let Some(v) = lookup(e, key) {
        assert(orderly(e[i].1));
    }
}

/// Setting up again changes nothing: the settings that were written, read from their text,
/// need no change, whatever became of the fractions in them.
pub proof fn law_written_settings_are_left_alone(
    e: Seq<(Seq<char>, JsonView)>,
    again: Seq<(Seq<char>, JsonView)>,
    path: Seq<char>,
)
    requires
        orderly(JsonView::Object(e)),
    ensures
        merged(e, path) matches Ok((next, _)) ==> (like(
            JsonView::Object(reread(next)),
            JsonView::Object(again),
        ) ==> (merged(again, path) matches Ok((_, changed)) && !changed)),
{
    if let Ok((next, _)) = merged(e, path) {
        reveal_strlit("mcpServers");
        reveal_strlit("permissions");
        assert("mcpServers"@.len() != "permissions"@.len());
        let servers = object_slot(e, "mcpServers"@, "mcpServers"@, path)->Ok_0;
        let ws = with_server(servers);
        let one = put(e, "mcpServers"@, JsonView::Object(ws));
        let permissions = object_slot(one, "permissions"@, "permissions"@, path)->Ok_0;
        let allow = array_slot(permissions, "allow"@, "permissions.allow"@, path)->Ok_0;
        let all = allow + missing(allow, tool_names());
        let allowed = put(permissions, "allow"@, JsonView::Array(all));
        lemma_orderly_slot(e, "mcpServers"@, "mcpServers"@, path);
        lemma_orderly_slot(e, "permissions"@, "permissions"@, path);
        law_put_then_lookup(e, "mcpServers"@, JsonView::Object(ws), "permissions"@);
        law_put_then_lookup(servers, "clove"@, server_entry(), "clove"@);
        law_put_then_lookup(one, "permissions"@, JsonView::Object(allowed), "mcpServers"@);
        law_put_then_lookup(permissions, "allow"@, JsonView::Array(all), "allow"@);
        lemma_put_rises(e, "mcpServers"@, JsonView::Object(ws));
        lemma_put_rises(one, "permissions"@, JsonView::Object(allowed));
        lemma_put_rises(servers, "clove"@, server_entry());
        lemma_put_rises(permissions, "allow"@, JsonView::Array(all));
        lemma_reread(next, "mcpServers"@);
        lemma_reread(next, "permissions"@);
        lemma_reread(ws, "clove"@);
        lemma_reread(allowed, "allow"@);
        let o = reread(next);
        assert(lookup(o, "mcpServers"@) == Some(JsonView::Object(reread(ws))));
        assert(lookup(o, "permissions"@) == Some(JsonView::Object(reread(allowed))));
        let read = ordered_items(all);
        assert(lookup(reread(allowed), "allow"@) == Some(JsonView::Array(read)));
        lemma_ordered_items_at(all);
        if like(JsonView::Object(o), JsonView::Object(again)) {
            lemma_like_lookup(o, again, "mcpServers"@);
            lemma_like_lookup(o, again, "permissions"@);
            let ws2 = lookup(again, "mcpServers"@)->0->Object_0;
            lemma_like_lookup(reread(ws), ws2, "clove"@);
            assert(with_server(ws2) == ws2);
            law_put_then_lookup(again, "mcpServers"@, JsonView::Object(ws2), "permissions"@);
            let allowed2 = lookup(again, "permissions"@)->0->Object_0;
            lemma_like_lookup(reread(allowed), allowed2, "allow"@);
            let read2 = lookup(allowed2, "allow"@)->0->Array_0;
            assert(like(JsonView::Array(read), JsonView::Array(read2)));
            assert forall|i: int| 0 <= i < tool_names().len() implies read2.contains(
                permission(#[trigger] tool_names()[i]),
            ) by {
                lemma_missing(allow, tool_names(), i);
                let k = choose|k: int| 0 <= k < all.len() && all[k] == permission(tool_names()[i]);
                assert(read[k] == ordered(all[k]));
                assert(like(read[k], read2[k]));
            }
            lemma_nothing_missing(read2, tool_names());
        }
    }
}

proof fn lemma_shallow_slots(
    e: Seq<(Seq<char>, JsonView)>,
    key: Seq<char>,
    key_path: Seq<char>,
    path: Seq<char>,
    depth: nat,
)
    requires
        shallow(JsonView::Object(e), depth),
        depth > 1,
    ensures
        object_slot(e, key, key_path, path) matches Ok(o) ==> shallow(
            JsonView::Object(o),
            (depth - 1) as nat,
        ),
        array_slot(e, key, key_path, path) matches Ok(a) ==> shallow(
            JsonView::Array(a),
            (depth - 1) as nat,
        ),
{
    let i = lemma_lookup_found(e, key);
    lemma_shallow_entries(JsonView::Object(e), e, depth);
    if let Some(v) = lookup(e, key) {
        assert(shallow(e[i].1, (depth - 1) as nat));
    }
}

proof fn lemma_server_entry_shallow()
    ensures
        shallow(server_entry(), 2),
{
    let none = Seq::<(Seq<char>, JsonView)>::empty();
    let command = JsonView::Text("clove"@);
    let args = texts(seq!["mcp"@]);
    let list = seq![("command"@, command), ("args"@, args)];
    assert(shallow(args, 1)) by {
        let items = args->Array_0;
        assert forall|i: int| 0 <= i < items.len() implies shallow(#[trigger] items[i], 0) by {
            assert(items[i] is Text);
        }
    }
    lemma_put_shallow(none, "command"@, command, 2);
    lemma_put_shallow(put(none, "command"@, command), "args"@, args, 2);
    assert(list.drop_last() =~= seq![("command"@, command)]);
    assert(list.drop_last().drop_last() =~= none);
    reveal_with_fuel(put_all, 3);
}

/// Settings are nested no deeper for being merged, so that what is written of them can be
/// read.
pub proof fn law_merged_settings_stay_readable(e: Seq<(Seq<char>, JsonView)>, path: Seq<char>)
    requires
        shallow(JsonView::Object(e), 127),
    ensures
        merged(e, path) matches Ok((next, _)) ==> shallow(ordered(JsonView::Object(next)), 127),
{
    if let Ok((next, _)) = merged(e, path) {
        let servers = object_slot(e, "mcpServers"@, "mcpServers"@, path)->Ok_0;
        let ws = with_server(servers);
        let one = put(e, "mcpServers"@, JsonView::Object(ws));
        let permissions = object_slot(one, "permissions"@, "permissions"@, path)->Ok_0;
        let allow = array_slot(permissions, "allow"@, "permissions.allow"@, path)->Ok_0;
        let more = missing(allow, tool_names());
        let all = allow + more;
        let allowed = put(permissions, "allow"@, JsonView::Array(all));
        lemma_shallow_slots(e, "mcpServers"@, "mcpServers"@, path, 127);
        lemma_server_entry_shallow();
        lemma_shallow_grows(server_entry(), 2, 125);
        lemma_put_shallow(servers, "clove"@, server_entry(), 126);
        lemma_put_shallow(e, "mcpServers"@, JsonView::Object(ws), 127);
        lemma_shallow_slots(one, "permissions"@, "permissions"@, path, 127);
        lemma_shallow_slots(permissions, "allow"@, "permissions.allow"@, path, 126);
        lemma_missing_shallow(allow, tool_names(), 124);
        assert(shallow(JsonView::Array(allow), 125));
        assert forall|i: int| 0 <= i < all.len() implies shallow(#[trigger] all[i], 124) by {
            if i < allow.len() {
                assert(all[i] == allow[i]);
            } else {
                assert(all[i] == more[i - allow.len()]);
            }
        }
        assert(shallow(JsonView::Array(all), 125));
        lemma_put_shallow(permissions, "allow"@, JsonView::Array(all), 126);
        lemma_put_shallow(one, "permissions"@, JsonView::Object(allowed), 127);
        lemma_ordered_shallow(JsonView::Object(next), 127);
    }
}

proof fn lemma_missing_shallow(allow: Seq<JsonView>, tools: Seq<Seq<char>>, depth: nat)
    ensures
        forall|i: int|
            0 <= i < missing(allow, tools).len() ==> shallow(
                #[trigger] missing(allow, tools)[i],
                depth,
            ),
    decreases tools.len(),
{
    if tools.len() > 0 {
        let rest = missing(allow, tools.drop_last());
        lemma_missing_shallow(allow, tools.drop_last(), depth);
        assert(shallow(permission(tools.last()), depth));
        assert forall|i: int| 0 <= i < missing(allow, tools).len() implies shallow(
            #[trigger] missing(allow, tools)[i],
            depth,
        ) by {
            if i < rest.len() {
                assert(missing(allow, tools)[i] == rest[i]);
            }
        }
    }
}

/// What belongs to others stays: the other keys, the other servers, and the permissions
/// that were there, in their order.
pub proof fn law_foreign_settings_are_kept(
    e: Seq<(Seq<char>, JsonView)>,
    path: Seq<char>,
    key: Seq<char>,
    server: Seq<char>,
)
    requires
        key != "mcpServers"@,
        key != "permissions"@,
        server != "clove"@,
    ensures
        merged(e, path) matches Ok((next, _)) ==> {
            &&& lookup(next, key) == lookup(e, key)
            &&& lookup(e, "mcpServers"@) matches Some(JsonView::Object(servers)) ==> {
                lookup(next, "mcpServers"@) matches Some(JsonView::Object(after)) && lookup(
                    after,
                    server,
                ) == lookup(servers, server)
            }
            &&& lookup(e, "permissions"@) matches Some(JsonView::Object(p)) ==> (lookup(
                p,
                "allow"@,
            ) matches Some(JsonView::Array(allow)) ==> (lookup(next, "permissions"@) matches Some(
                JsonView::Object(q),
            ) && lookup(q, "allow"@) matches Some(JsonView::Array(all)) && all.take(
                allow.len() as int,
            ) == allow))
        },
{
    if let Ok((next, _)) = merged(e, path) {
        reveal_strlit("mcpServers");
        reveal_strlit("permissions");
        assert("mcpServers"@.len() != "permissions"@.len());
        let servers = object_slot(e, "mcpServers"@, "mcpServers"@, path)->Ok_0;
        let s2 = JsonView::Object(with_server(servers));
        let one = put(e, "mcpServers"@, s2);
        let permissions = object_slot(one, "permissions"@, "permissions"@, path)->Ok_0;
        let allow = array_slot(permissions, "allow"@, "permissions.allow"@, path)->Ok_0;
        let all = allow + missing(allow, tool_names());
        let allowed = put(permissions, "allow"@, JsonView::Array(all));
        law_put_then_lookup(e, "mcpServers"@, s2, key);
        law_put_then_lookup(e, "mcpServers"@, s2, "permissions"@);
        law_put_then_lookup(one, "permissions"@, JsonView::Object(allowed), key);
        law_put_then_lookup(
            one,
            "permissions"@,
            JsonView::Object(allowed),
            "mcpServers"@,
        );
        law_put_then_lookup(servers, "clove"@, server_entry(), server);
        law_put_then_lookup(permissions, "allow"@, JsonView::Array(all), "allow"@);
        assert(all.take(allow.len() as int) =~= allow);
    }
}

/// Once the settings are merged, every tool of the server is allowed.
pub proof fn law_every_tool_is_allowed(e: Seq<(Seq<char>, JsonView)>, path: Seq<char>, i: int)
    requires
        0 <= i < tool_names().len(),
    ensures
        merged(e, path) matches Ok((next, _)) ==> (lookup(next, "permissions"@) matches Some(
            JsonView::Object(q),
        ) && lookup(q, "allow"@) matches Some(JsonView::Array(all)) && all.contains(
            permission(tool_names()[i]),
        )),
{
    if let Ok((next, _)) = merged(e, path) {
        let servers = object_slot(e, "mcpServers"@, "mcpServers"@, path)->Ok_0;
        let one = put(e, "mcpServers"@, JsonView::Object(with_server(servers)));
        let permissions = object_slot(one, "permissions"@, "permissions"@, path)->Ok_0;
        let allow = array_slot(permissions, "allow"@, "permissions.allow"@, path)->Ok_0;
        let all = allow + missing(allow, tool_names());
        let allowed = put(permissions, "allow"@, JsonView::Array(all));
        law_put_then_lookup(one, "permissions"@, JsonView::Object(allowed), "permissions"@);
        law_put_then_lookup(permissions, "allow"@, JsonView::Array(all), "allow"@);
        lemma_missing(allow, tool_names(), i);
    }
}

// ---- The directives and their import ------------------------------------------

/// What the settings file becomes, if it changes, and the line that says so.
pub open spec fn settings_action(changed: bool, dry_run: bool) -> Seq<char> {
    if !changed {
        "settings.json already registers the clove MCP server and permissions."@
    } else if dry_run {
        "Would register the clove MCP server + tool permissions in settings.json."@
    } else {
        "Registered the clove MCP server + tool permissions in settings.json."@
    }
}

fn settings_line(changed: bool, dry_run: bool) -> (r: String)
    ensures
        r@ == settings_action(changed, dry_run),
{
    if !changed {
        "settings.json already registers the clove MCP server and permissions.".to_owned()
    } else if dry_run {
        "Would register the clove MCP server + tool permissions in settings.json.".to_owned()
    } else {
        "Registered the clove MCP server + tool permissions in settings.json.".to_owned()
    }
}

/// Do the directives have to be written?
pub open spec fn directives_stale(existing: Option<Seq<char>>) -> bool {
    existing != Some(CLOVE_MD_CONTENT@)
}

/// The line on the directives.
pub open spec fn directives_action(existing: Option<Seq<char>>, dry_run: bool) -> Seq<char> {
    if !directives_stale(existing) {
        "CLOVE.md is already up to date."@
    } else if dry_run {
        if existing is Some {
            "Would update CLOVE.md."@
        } else {
            "Would create CLOVE.md."@
        }
    } else if existing is Some {
        "Updated CLOVE.md."@
    } else {
        "Created CLOVE.md."@
    }
}

/// What becomes of `CLOVE.md`: what to write, whether it changes, and the line on it.
pub fn write_clove_md(existing: Option<&str>, dry_run: bool) -> (r: (Option<String>, bool, String))
    ensures
        r.0.deep_view() == (if directives_stale(text::opt_view(existing)) && !dry_run {
            Some(CLOVE_MD_CONTENT@)
        } else {
            None
        }),
        r.1 == directives_stale(text::opt_view(existing)),
        r.2@ == directives_action(text::opt_view(existing), dry_run),
{
    let (there, current) = match existing {
        Some(s) => (true, text::same(s, CLOVE_MD_CONTENT)),
        None => (false, false),
    };
    if current {
        return (None, false, "CLOVE.md is already up to date.".to_owned());
    }
    if dry_run {
        let line = if there {
            "Would update CLOVE.md.".to_owned()
        } else {
            "Would create CLOVE.md.".to_owned()
        };
        return (None, true, line);
    }
    let line = if there {
        "Updated CLOVE.md.".to_owned()
    } else {
        "Created CLOVE.md.".to_owned()
    };
    (Some(CLOVE_MD_CONTENT.to_owned()), true, line)
}

/// The memory file with the import at its end, a blank line in front of it.
pub open spec fn claude_md_text(existing: Seq<char>) -> Seq<char> {
    (if existing.len() == 0 {
        existing
    } else if existing.last() == '\n' {
        existing.push('\n')
    } else {
        existing.push('\n').push('\n')
    }) + CLOVE_MD_REF@ + seq!['\n']
}

/// The line on the memory file, which is called `file`.
pub open spec fn claude_md_action(
    existing: Seq<char>,
    dry_run: bool,
    file: Seq<char>,
) -> Seq<char> {
    if has_line(existing, CLOVE_MD_REF@) {
        file + " already imports @CLOVE.md."@
    } else if dry_run {
        if existing.len() == 0 {
            "Would create "@ + file + " importing @CLOVE.md."@
        } else {
            "Would add the @CLOVE.md import to "@ + file + "."@
        }
    } else if existing.len() == 0 {
        "Created "@ + file + " importing @CLOVE.md."@
    } else {
        "Added the @CLOVE.md import to "@ + file + "."@
    }
}

/// What becomes of the memory file `file`: what to write, whether it changes, and the line on it. A
/// missing file counts as an empty one.
pub fn update_claude_md(
    existing: &str,
    dry_run: bool,
    file: &str,
) -> (r: (Option<String>, bool, String))
    ensures
        r.0.deep_view() == (if !has_line(existing@, CLOVE_MD_REF@) && !dry_run {
            Some(claude_md_text(existing@))
        } else {
            None
        }),
        r.1 == !has_line(existing@, CLOVE_MD_REF@),
        r.2@ == claude_md_action(existing@, dry_run, file@),
{
    if contains_line(existing, CLOVE_MD_REF) {
        return (None, false, text::cat2(file, " already imports @CLOVE.md."));
    }
    let n = existing.unicode_len();
    if dry_run {
        let line = if n == 0 {
            text::cat3("Would create ", file, " importing @CLOVE.md.")
        } else {
            text::cat3("Would add the @CLOVE.md import to ", file, ".")
        };
        return (None, true, line);
    }
    let mut next = existing.to_owned();
    if n > 0 {
        if existing.get_char(n - 1) != '\n' {
            next.push('\n');
        }
        next.push('\n');
    }
    next.append(CLOVE_MD_REF);
    next.push('\n');
    assert(next@ =~= claude_md_text(existing@));
    let line = if n == 0 {
        text::cat3("Created ", file, " importing @CLOVE.md.")
    } else {
        text::cat3("Added the @CLOVE.md import to ", file, ".")
    };
    (Some(next), true, line)
}

/// Writing the directives and the import again changes neither file, and the memory file
/// keeps what it held.
pub proof fn law_directives_are_written_once(existing: Seq<char>)
    ensures
        !directives_stale(Some(CLOVE_MD_CONTENT@)),
        has_line(claude_md_text(existing), CLOVE_MD_REF@),
        text::begins(claude_md_text(existing), existing),
{
    let line = CLOVE_MD_REF@;
    reveal_strlit("@CLOVE.md");
    assert(is_plain_line(line)) by {
        assert(line.len() == 9);
        assert(line[0] == '@');
        assert(line[8] == 'd');
        assert(!text::is_space(line[0]));
        assert(!text::is_space(line.last()));
        assert(text::trim_back(line) == line);
        assert(text::trim_front(line) == line);
    }
    let start = if existing.len() == 0 {
        existing
    } else if existing.last() == '\n' {
        existing.push('\n')
    } else {
        existing.push('\n').push('\n')
    };
    law_a_written_line_is_there(start, line);
    assert(claude_md_text(existing).take(existing.len() as int) =~= existing);
}

// ---- The command --------------------------------------------------------------

/// What the command writes and says.
#[derive(Debug, PartialEq, Eq)]
pub struct SetupPlan {
    pub settings: Option<String>,
    pub clove_md: Option<String>,
    pub claude_md: Option<String>,
    pub actions: Vec<String>,
    pub changed: bool,
}

/// What the files hold: a missing one is none, but for the memory file, which is empty.
#[derive(Debug, PartialEq, Eq)]
pub struct Existing {
    pub settings: Option<String>,
    pub clove_md: Option<String>,
    pub claude_md: String,
}

/// Plans the command. With `--dry-run` nothing is written. It fails only on settings that
/// cannot be read or merged. What it writes, it can read the next time, and leaves alone.
pub fn plan(
    existing: &Existing,
    dry_run: bool,
    settings_path: &str,
    memory_file: &str,
) -> (r: Result<SetupPlan, CloveError>)
    ensures
        match settings_in(existing.settings.deep_view(), settings_path@) {
            Err(e) => r is Err && r->Err_0.deep_view() == e,
            Ok(found) => match merged(found, settings_path@) {
                Err(e) => r is Err && r->Err_0.deep_view() == e,
                Ok((next, changed)) => match r {
                    Ok(p) => {
                        &&& p.settings.deep_view() == (if changed && !dry_run {
                            Some(json_pretty(ordered(JsonView::Object(next))))
                        } else {
                            None
                        })
                        &&& changed && !dry_run ==> (settings_in(
                            p.settings.deep_view(),
                            settings_path@,
                        ) matches Ok(again) && like(
                            JsonView::Object(reread(next)),
                            JsonView::Object(again),
                        ) && (merged(again, settings_path@) matches Ok((_, c)) && !c))
                        &&& p.clove_md.deep_view() == (if directives_stale(
                            existing.clove_md.deep_view(),
                        ) && !dry_run {
                            Some(CLOVE_MD_CONTENT@)
                        } else {
                            None
                        })
                        &&& p.claude_md.deep_view() == (if !has_line(
                            existing.claude_md@,
                            CLOVE_MD_REF@,
                        ) && !dry_run {
                            Some(claude_md_text(existing.claude_md@))
                        } else {
                            None
                        })
                        &&& p.actions.deep_view() == seq![
                            settings_action(changed, dry_run),
                            directives_action(existing.clove_md.deep_view(), dry_run),
                            claude_md_action(existing.claude_md@, dry_run, memory_file@),
                        ]
                        &&& p.changed == (changed || directives_stale(
                            existing.clove_md.deep_view(),
                        ) || !has_line(existing.claude_md@, CLOVE_MD_REF@))
                    },
                    Err(_) => false,
                },
            },
        },
{
    let found = match read_settings(
        crate::registry::install::borrowed(&existing.settings),
        settings_path,
    ) {
        Ok(m) => m,
        Err(e) => return Err(e),
    };
    let ghost before = entries(found@);
    let (next, settings_changed) = match merge_settings(found, settings_path) {
        Ok(m) => m,
        Err(e) => return Err(e),
    };
    let settings: Option<String> = if settings_changed && !dry_run {
        let ghost after = entries(next@);
        proof {
            crate::json::lemma_object_shape(next);
            law_merged_settings_stay_readable(before, settings_path@);
        }
        match Json::Object(next).to_pretty_text() {
            Ok(s) => {
                proof {
                    assert(reads_like(s@, JsonView::Object(reread(after))));
                    let again = json_parsed(s@)->Ok_0->Object_0;
                    law_written_settings_are_left_alone(before, again, settings_path@);
                }
                Some(s)
            },
            Err(e) => {
                return Err(
                    invalid(
                        "settings.json",
                        text::cat2("could not serialize settings.json: ", e.as_str()),
                    ),
                );
            },
        }
    } else {
        None
    };
    let (clove_md, md_changed, md_line) = write_clove_md(
        crate::registry::install::borrowed(&existing.clove_md),
        dry_run,
    );
    let (claude_md, claude_md_changed, claude_md_line) = update_claude_md(
        existing.claude_md.as_str(),
        dry_run,
        memory_file,
    );
    let first = settings_line(settings_changed, dry_run);
    let ghost a = first@;
    let ghost b = md_line@;
    let ghost c = claude_md_line@;
    let actions: Vec<String> = vec![first, md_line, claude_md_line];
    assert(actions.deep_view() =~= seq![a, b, c]);
    Ok(
        SetupPlan {
            settings,
            clove_md,
            claude_md,
            actions,
            changed: settings_changed || md_changed || claude_md_changed,
        },
    )
}

/// The lines on what was done.
pub open spec fn action_lines(actions: Seq<Seq<char>>) -> Seq<OutView> {
    Seq::new(actions.len(), |i: int| OutView::Text(actions[i]))
}

/// The last line, where there is one.
pub open spec fn closing(dry_run: bool, changed: bool) -> Seq<OutView> {
    if dry_run {
        seq![OutView::Text("Dry run — nothing was written."@)]
    } else if !changed {
        seq![OutView::Text("Everything is already set up. Nothing to do."@)]
    } else {
        Seq::empty()
    }
}

/// What is printed of the command.
pub open spec fn setup_output(
    format: OutputFormat,
    dir: Seq<char>,
    actions: Seq<Seq<char>>,
    changed: bool,
    dry_run: bool,
    quiet: bool,
) -> Seq<OutView> {
    if format == OutputFormat::Human {
        if quiet {
            Seq::empty()
        } else {
            action_lines(actions) + closing(dry_run, changed)
        }
    } else {
        seq![
            OutView::Json(
                success(
                    obj(
                        seq![
                            ("changed"@, JsonView::Bool(changed)),
                            ("dry_run"@, JsonView::Bool(dry_run)),
                            ("claude_dir"@, JsonView::Text(dir)),
                            ("actions"@, texts(actions)),
                        ],
                    ),
                    warnings_meta(Seq::empty()),
                ),
            ),
        ]
    }
}

/// Renders what was done.
pub fn run(format: OutputFormat, dir: &str, plan: &SetupPlan, dry_run: bool, quiet: bool) -> (r: Vec<
    Out,
>)
    ensures
        r.deep_view() == setup_output(
            format,
            dir@,
            plan.actions.deep_view(),
            plan.changed,
            dry_run,
            quiet,
        ),
{
    let ghost all = plan.actions.deep_view();
    let mut out: Vec<Out> = Vec::new();
    match format {
        OutputFormat::Human => {
            if quiet {
                assert(out.deep_view() =~= Seq::<OutView>::empty());
                return out;
            }
            let mut i: usize = 0;
            while i < plan.actions.len()
                invariant
                    i <= plan.actions.len(),
                    all == plan.actions.deep_view(),
                    out.len() == i,
                    forall|j: int|
                        0 <= j < i ==> (#[trigger] out@[j]).deep_view() == OutView::Text(all[j]),
                decreases plan.actions.len() - i,
            {
                assert(all[i as int] == plan.actions@[i as int]@);
                out.push(Out::Text(plan.actions[i].clone()));
                i += 1;
            }
            assert(out.deep_view() =~= action_lines(all));
            if dry_run {
                out.push(Out::Text("Dry run — nothing was written.".to_owned()));
            } else if !plan.changed {
                out.push(Out::Text("Everything is already set up. Nothing to do.".to_owned()));
            }
            assert(out.deep_view() =~= action_lines(all) + closing(dry_run, plan.changed));
        },
        _ => {
            let v: Vec<(String, Json)> = vec![
                ("changed".to_owned(), Json::Bool(plan.changed)),
                ("dry_run".to_owned(), Json::Bool(dry_run)),
                ("claude_dir".to_owned(), string(dir)),
                ("actions".to_owned(), strings(&plan.actions)),
            ];
            assert(pairs(v@) =~= seq![
                ("changed"@, JsonView::Bool(plan.changed)),
                ("dry_run"@, JsonView::Bool(dry_run)),
                ("claude_dir"@, JsonView::Text(dir@)),
                ("actions"@, texts(all)),
            ]);
            let line = Out::Json(success_envelope(object(v), meta_without_warnings()));
            let ghost view = line.deep_view();
            out.push(line);
            assert(out.deep_view() =~= seq![view]);
        },
    }
    out
}

/// After a merge the server is registered: the one that was there, or else clove's own.
pub proof fn law_the_server_is_registered(e: Seq<(Seq<char>, JsonView)>, path: Seq<char>)
    ensures
        merged(e, path) matches Ok((next, _)) ==> (lookup(next, "mcpServers"@) matches Some(
            JsonView::Object(after),
        ) && lookup(after, "clove"@) is Some && (lookup(e, "mcpServers"@) is None ==> lookup(
            after,
            "clove"@,
        ) == Some(server_entry())) && (lookup(e, "mcpServers"@) matches Some(
            JsonView::Object(servers),
        ) ==> (lookup(servers, "clove"@) matches Some(x) ==> lookup(after, "clove"@) == Some(x)))),
        merged(e, path) matches Ok((_, changed)) ==> (lookup(e, "mcpServers"@) is None ==> changed),
{
    reveal_strlit("mcpServers");
    reveal_strlit("permissions");
    assert("mcpServers"@.len() != "permissions"@.len());
    if let Ok(servers) = object_slot(e, "mcpServers"@, "mcpServers"@, path) {
        law_put_then_lookup(servers, "clove"@, server_entry(), "clove"@);
        let with = JsonView::Object(with_server(servers));
        let one = put(e, "mcpServers"@, with);
        law_put_then_lookup(e, "mcpServers"@, with, "mcpServers"@);
        if let Ok(permissions) = object_slot(one, "permissions"@, "permissions"@, path) {
            if let Ok(allow) = array_slot(permissions, "allow"@, "permissions.allow"@, path) {
                let more = missing(allow, tool_names());
                let allowed = put(permissions, "allow"@, JsonView::Array(allow + more));
                law_put_then_lookup(
                    one,
                    "permissions"@,
                    JsonView::Object(allowed),
                    "mcpServers"@,
                );
            }
        }
    }
}

/// The server that is registered is clove itself, told to serve.
pub proof fn law_the_server_runs_clove()
    ensures
        server_entry().member("command"@) == Some(JsonView::Text("clove"@)),
        server_entry().member("args"@) == Some(texts(seq!["mcp"@])),
{
    reveal_strlit("command");
    reveal_strlit("args");
    let p = seq![
        ("command"@, JsonView::Text("clove"@)),
        ("args"@, texts(seq!["mcp"@])),
    ];
    assert(server_entry() == obj(p));
    assert(p[0].0 == "command"@ && p[1].0 == "args"@);
    law_distinct_pairs_are_members(p);
}

/// Of the tools, exactly those that are not allowed yet are added, in order.
pub proof fn law_only_missing_permissions_are_added(
    allow: Seq<JsonView>,
    tools: Seq<Seq<char>>,
    tool: Seq<char>,
)
    ensures
        missing(allow, Seq::empty()).len() == 0,
        allow.contains(permission(tool)) ==> missing(allow, tools.push(tool)) == missing(
            allow,
            tools,
        ),
        !allow.contains(permission(tool)) ==> missing(allow, tools.push(tool)) == missing(
            allow,
            tools,
        ).push(permission(tool)),
        permission(tool) == JsonView::Text("mcp__clove__"@ + tool),
{
    assert(tools.push(tool).drop_last() =~= tools);
}

/// Settings that are missing are empty, and settings that are an object are that object;
/// anything else is refused, and so is a key that holds something of another kind.
pub proof fn law_settings_of_another_kind_are_refused(
    s: Seq<char>,
    path: Seq<char>,
    e: Seq<(Seq<char>, JsonView)>,
    key: Seq<char>,
    key_path: Seq<char>,
)
    ensures
        settings_in(None, path) == Ok::<Seq<(Seq<char>, JsonView)>, ErrorView>(Seq::empty()),
        json_parsed(s) matches Ok(JsonView::Object(o)) ==> settings_in(Some(s), path) == Ok::<
            Seq<(Seq<char>, JsonView)>,
            ErrorView,
        >(o),
        json_parsed(s) matches Ok(v) ==> (!(v is Object) ==> settings_in(Some(s), path) is Err),
        json_parsed(s) is Err ==> settings_in(Some(s), path) is Err,
        lookup(e, key) matches Some(JsonView::Object(o)) ==> object_slot(e, key, key_path, path)
            == Ok::<Seq<(Seq<char>, JsonView)>, ErrorView>(o),
        lookup(e, key) is None ==> object_slot(e, key, key_path, path) == Ok::<
            Seq<(Seq<char>, JsonView)>,
            ErrorView,
        >(Seq::empty()) && array_slot(e, key, key_path, path) == Ok::<Seq<JsonView>, ErrorView>(
            Seq::empty(),
        ),
        lookup(e, key) matches Some(JsonView::Array(a)) ==> array_slot(e, key, key_path, path)
            == Ok::<Seq<JsonView>, ErrorView>(a) && (a.len() > 0 ==> object_slot(
            e,
            key,
            key_path,
            path,
        ) is Err),
        lookup(e, key) matches Some(JsonView::Text(_)) ==> object_slot(e, key, key_path, path)
            is Err && array_slot(e, key, key_path, path) is Err,
        lookup(e, key) matches Some(JsonView::Bool(_)) ==> object_slot(e, key, key_path, path)
            is Err && array_slot(e, key, key_path, path) is Err,
{
    if let Some(JsonView::Array(a)) = lookup(e, key) {
        assert(a.len() > 0 ==> a != Seq::<JsonView>::empty());
    }
}

/// What was done is said as what it was: registered, or only planned, or there already.
pub proof fn law_each_action_is_said_as_it_was(
    existing: Option<Seq<char>>,
    memory: Seq<char>,
    dry_run: bool,
    file: Seq<char>,
)
    ensures
        settings_action(false, dry_run)
            == "settings.json already registers the clove MCP server and permissions."@,
        settings_action(true, true)
            == "Would register the clove MCP server + tool permissions in settings.json."@,
        settings_action(true, false)
            == "Registered the clove MCP server + tool permissions in settings.json."@,
        existing == Some(CLOVE_MD_CONTENT@) ==> !directives_stale(existing) && directives_action(
            existing,
            dry_run,
        ) == "CLOVE.md is already up to date."@,
        existing is None ==> directives_stale(existing) && directives_action(existing, false)
            == "Created CLOVE.md."@ && directives_action(existing, true)
            == "Would create CLOVE.md."@,
        existing is Some && existing != Some(CLOVE_MD_CONTENT@) ==> directives_action(
            existing,
            false,
        ) == "Updated CLOVE.md."@ && directives_action(existing, true) == "Would update CLOVE.md."@,
        has_line(memory, CLOVE_MD_REF@) ==> claude_md_action(memory, dry_run, file) == file
            + " already imports @CLOVE.md."@,
        !has_line(memory, CLOVE_MD_REF@) && memory.len() > 0 ==> claude_md_action(
            memory,
            false,
            file,
        ) == "Added the @CLOVE.md import to "@ + file + "."@ && claude_md_action(
            memory,
            true,
            file,
        ) == "Would add the @CLOVE.md import to "@ + file + "."@,
        !has_line(memory, CLOVE_MD_REF@) && memory.len() == 0 ==> claude_md_action(
            memory,
            false,
            file,
        ) == "Created "@ + file + " importing @CLOVE.md."@ && claude_md_action(memory, true, file)
            == "Would create "@ + file + " importing @CLOVE.md."@,
{
}

/// Setting up tells every action, in order, and in JSON also where and whether anything
/// changed.
pub proof fn law_setting_up_tells_every_action(
    dir: Seq<char>,
    actions: Seq<Seq<char>>,
    changed: bool,
    dry_run: bool,
    quiet: bool,
    i: int,
)
    ensures
        setup_output(OutputFormat::Json, dir, actions, changed, dry_run, quiet)[0] matches
            OutView::Json(v) && (v.member("data"@) matches Some(d) && d.member("changed"@) == Some(
            JsonView::Bool(changed),
        ) && d.member("dry_run"@) == Some(JsonView::Bool(dry_run)) && d.member("claude_dir"@)
            == Some(JsonView::Text(dir)) && d.member("actions"@) == Some(texts(actions))),
        0 <= i < actions.len() ==> setup_output(
            OutputFormat::Human,
            dir,
            actions,
            changed,
            dry_run,
            false,
        )[i] == OutView::Text(actions[i]),
        setup_output(OutputFormat::Human, dir, actions, changed, true, false).last()
            == OutView::Text("Dry run — nothing was written."@),
        setup_output(OutputFormat::Human, dir, actions, false, false, false).last()
            == OutView::Text("Everything is already set up. Nothing to do."@),
        setup_output(OutputFormat::Human, dir, actions, true, false, false).len() == actions.len(),
        setup_output(OutputFormat::Human, dir, actions, changed, dry_run, true).len() == 0,
{
    let d = obj(
        seq![
            ("changed"@, JsonView::Bool(changed)),
            ("dry_run"@, JsonView::Bool(dry_run)),
            ("claude_dir"@, JsonView::Text(dir)),
            ("actions"@, texts(actions)),
        ],
    );
    reveal_strlit("changed");
    reveal_strlit("dry_run");
    reveal_strlit("claude_dir");
    reveal_strlit("actions");
    let p = seq![
        ("changed"@, JsonView::Bool(changed)),
        ("dry_run"@, JsonView::Bool(dry_run)),
        ("claude_dir"@, JsonView::Text(dir)),
        ("actions"@, texts(actions)),
    ];
    assert(d == obj(p));
    assert(p[0].0 == "changed"@ && p[1].0 == "dry_run"@ && p[2].0 == "claude_dir"@ && p[3].0 == "actions"@);
    assert("changed"@[0] != "dry_run"@[0]);
    assert("changed"@[0] != "actions"@[0]);
    assert("dry_run"@[0] != "actions"@[0]);
    law_distinct_pairs_are_members(p);
    law_a_success_carries_its_data(d, warnings_meta(Seq::empty()));
}

} // verus!
