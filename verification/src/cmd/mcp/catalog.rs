//! The tools of the server as it advertises them: a name, a description and a schema each.

use vstd::prelude::*;

use crate::cmd::mcp::tool_names;
use crate::json::{
    law_distinct_pairs_are_members, law_objects_hold_their_pairs, num, number, obj, object, string,
    strings, texts, Json, JsonView,
};
use crate::output::pairs;
use crate::view::{ItemStatus, ItemType, law_words_are_read_as_what_they_name, status_of, type_of};

verus! {

// ---- Parts of a schema --------------------------------------------------------

/// A property of a plain type.
pub open spec fn prop(kind: Seq<char>, description: Seq<char>) -> JsonView {
    obj(seq![("type"@, JsonView::Text(kind)), ("description"@, JsonView::Text(description))])
}

fn prop_json(kind: &str, description: &str) -> (r: Json)
    ensures
        r.shape() == prop(kind@, description@),
{
    let v: Vec<(String, Json)> = vec![
        ("type".to_owned(), string(kind)),
        ("description".to_owned(), string(description)),
    ];
    assert(pairs(v@) =~= seq![
        ("type"@, JsonView::Text(kind@)),
        ("description"@, JsonView::Text(description@)),
    ]);
    object(v)
}

/// A property that is one of some words.
pub open spec fn word_prop(words: Seq<Seq<char>>, description: Seq<char>) -> JsonView {
    obj(
        seq![
            ("type"@, JsonView::Text("string"@)),
            ("enum"@, texts(words)),
            ("description"@, JsonView::Text(description)),
        ],
    )
}

fn word_prop_json(words: &Vec<String>, description: &str) -> (r: Json)
    ensures
        r.shape() == word_prop(words.deep_view(), description@),
{
    let v: Vec<(String, Json)> = vec![
        ("type".to_owned(), string("string")),
        ("enum".to_owned(), strings(words)),
        ("description".to_owned(), string(description)),
    ];
    assert(pairs(v@) =~= seq![
        ("type"@, JsonView::Text("string"@)),
        ("enum"@, texts(words.deep_view())),
        ("description"@, JsonView::Text(description@)),
    ]);
    object(v)
}

/// A property that is a whole number from `min` on.
pub open spec fn count_prop(min: int, description: Seq<char>) -> JsonView {
    obj(
        seq![
            ("type"@, JsonView::Text("integer"@)),
            ("minimum"@, num(min)),
            ("description"@, JsonView::Text(description)),
        ],
    )
}

fn count_prop_json(min: u64, description: &str) -> (r: Json)
    ensures
        r.shape() == count_prop(min as int, description@),
{
    let v: Vec<(String, Json)> = vec![
        ("type".to_owned(), string("integer")),
        ("minimum".to_owned(), number(min)),
        ("description".to_owned(), string(description)),
    ];
    assert(pairs(v@) =~= seq![
        ("type"@, JsonView::Text("integer"@)),
        ("minimum"@, num(min as int)),
        ("description"@, JsonView::Text(description@)),
    ]);
    object(v)
}

/// A list whose elements have a given schema.
pub open spec fn list_prop(items: JsonView, description: Seq<char>) -> JsonView {
    obj(
        seq![
            ("type"@, JsonView::Text("array"@)),
            ("items"@, items),
            ("description"@, JsonView::Text(description)),
        ],
    )
}

fn list_prop_json(items: Json, description: &str) -> (r: Json)
    ensures
        r.shape() == list_prop(items.shape(), description@),
{
    let ghost inner = items.shape();
    let v: Vec<(String, Json)> = vec![
        ("type".to_owned(), string("array")),
        ("items".to_owned(), items),
        ("description".to_owned(), string(description)),
    ];
    assert(pairs(v@) =~= seq![
        ("type"@, JsonView::Text("array"@)),
        ("items"@, inner),
        ("description"@, JsonView::Text(description@)),
    ]);
    object(v)
}

/// The schema of any text.
pub open spec fn any_text() -> JsonView {
    obj(seq![("type"@, JsonView::Text("string"@))])
}

fn any_text_json() -> (r: Json)
    ensures
        r.shape() == any_text(),
{
    let v: Vec<(String, Json)> = vec![("type".to_owned(), string("string"))];
    assert(pairs(v@) =~= seq![("type"@, JsonView::Text("string"@))]);
    object(v)
}

/// One value or a list of such values.
pub open spec fn one_or_many(one: JsonView, description: Seq<char>) -> JsonView {
    obj(
        seq![
            ("anyOf"@, JsonView::Array(seq![one, list_prop(one, "Several of them."@)])),
            ("description"@, JsonView::Text(description)),
        ],
    )
}

fn one_or_many_json(one: Json, description: &str) -> (r: Json)
    ensures
        r.shape() == one_or_many(one.shape(), description@),
{
    let ghost inner = one.shape();
    let many = list_prop_json(one.copy(), "Several of them.");
    let ghost list = many.shape();
    let both: Vec<Json> = vec![one, many];
    proof {
        crate::json::lemma_array_shape(both);
        assert(both.deep_view() =~= seq![inner, list]);
    }
    let v: Vec<(String, Json)> = vec![
        ("anyOf".to_owned(), Json::Array(both)),
        ("description".to_owned(), string(description)),
    ];
    assert(pairs(v@) =~= seq![
        ("anyOf"@, JsonView::Array(seq![inner, list])),
        ("description"@, JsonView::Text(description@)),
    ]);
    object(v)
}

/// The schema of an object.
pub open spec fn schema(
    properties: Seq<(Seq<char>, JsonView)>,
    required: Seq<Seq<char>>,
) -> JsonView {
    obj(
        seq![
            ("type"@, JsonView::Text("object"@)),
            ("properties"@, obj(properties)),
            ("required"@, texts(required)),
        ],
    )
}

fn schema_json(properties: Vec<(String, Json)>, required: &Vec<String>) -> (r: Json)
    ensures
        r.shape() == schema(pairs(properties@), required.deep_view()),
{
    let inner = object(properties);
    let ghost p = inner.shape();
    let v: Vec<(String, Json)> = vec![
        ("type".to_owned(), string("object")),
        ("properties".to_owned(), inner),
        ("required".to_owned(), strings(required)),
    ];
    assert(pairs(v@) =~= seq![
        ("type"@, JsonView::Text("object"@)),
        ("properties"@, p),
        ("required"@, texts(required.deep_view())),
    ]);
    object(v)
}

fn none() -> (r: Vec<String>)
    ensures
        r.deep_view() == Seq::<Seq<char>>::empty(),
{
    let v: Vec<String> = Vec::new();
    assert(v.deep_view() =~= Seq::<Seq<char>>::empty());
    v
}

fn one(a: &str) -> (r: Vec<String>)
    ensures
        r.deep_view() == seq![a@],
{
    let v: Vec<String> = vec![a.to_owned()];
    assert(v.deep_view() =~= seq![a@]);
    v
}

fn two(a: &str, b: &str) -> (r: Vec<String>)
    ensures
        r.deep_view() == seq![a@, b@],
{
    let v: Vec<String> = vec![a.to_owned(), b.to_owned()];
    assert(v.deep_view() =~= seq![a@, b@]);
    v
}

// ---- Shared properties --------------------------------------------------------

pub open spec fn id_prop() -> JsonView {
    prop("string"@, "The item id (e.g. `proj-7af3q2k9`)."@)
}

fn id_json() -> (r: Json)
    ensures
        r.shape() == id_prop(),
{
    prop_json("string", "The item id (e.g. `proj-7af3q2k9`).")
}

pub open spec fn status_prop() -> JsonView {
    word_prop(seq!["open"@, "in_progress"@, "closed"@], "Item status."@)
}

fn status_json() -> (r: Json)
    ensures
        r.shape() == status_prop(),
{
    let v: Vec<String> = vec!["open".to_owned(), "in_progress".to_owned(), "closed".to_owned()];
    assert(v.deep_view() =~= seq!["open"@, "in_progress"@, "closed"@]);
    word_prop_json(&v, "Item status.")
}

pub open spec fn type_prop() -> JsonView {
    word_prop(seq!["bug"@, "feature"@, "chore"@, "docs"@, "epic"@], "Item type."@)
}

fn type_json() -> (r: Json)
    ensures
        r.shape() == type_prop(),
{
    let v: Vec<String> = vec![
        "bug".to_owned(),
        "feature".to_owned(),
        "chore".to_owned(),
        "docs".to_owned(),
        "epic".to_owned(),
    ];
    assert(v.deep_view() =~= seq!["bug"@, "feature"@, "chore"@, "docs"@, "epic"@]);
    word_prop_json(&v, "Item type.")
}

pub open spec fn priority_prop() -> JsonView {
    obj(
        seq![
            ("type"@, JsonView::Text("integer"@)),
            ("minimum"@, num(0)),
            ("maximum"@, num(4)),
            ("description"@, JsonView::Text("Priority (0 = highest, default 2)."@)),
        ],
    )
}

fn priority_json() -> (r: Json)
    ensures
        r.shape() == priority_prop(),
{
    let v: Vec<(String, Json)> = vec![
        ("type".to_owned(), string("integer")),
        ("minimum".to_owned(), number(0)),
        ("maximum".to_owned(), number(4)),
        ("description".to_owned(), string("Priority (0 = highest, default 2).")),
    ];
    assert(pairs(v@) =~= seq![
        ("type"@, JsonView::Text("integer"@)),
        ("minimum"@, num(0)),
        ("maximum"@, num(4)),
        ("description"@, JsonView::Text("Priority (0 = highest, default 2)."@)),
    ]);
    object(v)
}

pub open spec fn limit_prop() -> JsonView {
    count_prop(0, "Max results (0 = no limit)."@)
}

pub open spec fn offset_prop() -> JsonView {
    count_prop(0, "Skip this many results."@)
}

pub open spec fn sort_prop() -> JsonView {
    word_prop(
        seq!["rank"@, "priority"@, "created"@, "updated"@, "id"@, "status"@, "type"@],
        "Sort by this field."@,
    )
}

fn sort_json() -> (r: Json)
    ensures
        r.shape() == sort_prop(),
{
    let v: Vec<String> = vec![
        "rank".to_owned(),
        "priority".to_owned(),
        "created".to_owned(),
        "updated".to_owned(),
        "id".to_owned(),
        "status".to_owned(),
        "type".to_owned(),
    ];
    assert(v.deep_view() =~= seq![
        "rank"@,
        "priority"@,
        "created"@,
        "updated"@,
        "id"@,
        "status"@,
        "type"@,
    ]);
    word_prop_json(&v, "Sort by this field.")
}

/// The properties that shape what a read returns.
pub open spec fn shape_props() -> Seq<(Seq<char>, JsonView)> {
    seq![
        ("fields"@, list_prop(any_text(), "Return only these fields."@)),
        (
            "compact"@,
            prop("boolean"@, "Omit null and empty-list keys and `schema` (default true)."@),
        ),
    ]
}

fn push_shape_props(v: &mut Vec<(String, Json)>)
    ensures
        pairs(final(v)@) == pairs(old(v)@) + shape_props(),
{
    let ghost start = pairs(v@);
    v.push(("fields".to_owned(), list_prop_json(any_text_json(), "Return only these fields.")));
    v.push(
        (
            "compact".to_owned(),
            prop_json("boolean", "Omit null and empty-list keys and `schema` (default true)."),
        ),
    );
    assert(pairs(v@) =~= start + shape_props());
}

/// The properties that order and cut a list.
pub open spec fn page_props() -> Seq<(Seq<char>, JsonView)> {
    seq![
        ("sort"@, sort_prop()),
        ("desc"@, prop("boolean"@, "Reverse the order."@)),
        ("limit"@, limit_prop()),
        ("offset"@, offset_prop()),
    ] + shape_props()
}

fn push_page_props(v: &mut Vec<(String, Json)>)
    ensures
        pairs(final(v)@) == pairs(old(v)@) + page_props(),
{
    let ghost start = pairs(v@);
    v.push(("sort".to_owned(), sort_json()));
    v.push(("desc".to_owned(), prop_json("boolean", "Reverse the order.")));
    v.push(("limit".to_owned(), count_prop_json(0, "Max results (0 = no limit).")));
    v.push(("offset".to_owned(), count_prop_json(0, "Skip this many results.")));
    assert(pairs(v@) =~= start + seq![
        ("sort"@, sort_prop()),
        ("desc"@, prop("boolean"@, "Reverse the order."@)),
        ("limit"@, limit_prop()),
        ("offset"@, offset_prop()),
    ]);
    push_shape_props(v);
    assert(pairs(v@) =~= start + page_props());
}

/// The properties of a filtered list.
pub open spec fn filter_props() -> Seq<(Seq<char>, JsonView)> {
    seq![
        ("status"@, one_or_many(status_prop(), "Filter by status: any of them."@)),
        ("type"@, one_or_many(type_prop(), "Filter by type: any of them."@)),
        ("label"@, one_or_many(any_text(), "Filter by label (case-insensitive): all of them."@)),
        ("assignee"@, prop("string"@, "Filter by assignee."@)),
        ("priority"@, one_or_many(priority_prop(), "Filter by priority: any of them."@)),
        (
            "q"@,
            prop("string"@, "Filter by a part of the id, title or labels (case-insensitive)."@),
        ),
    ] + page_props()
}

fn filter_props_json() -> (r: Vec<(String, Json)>)
    ensures
        pairs(r@) == filter_props(),
{
    let mut v: Vec<(String, Json)> = vec![
        ("status".to_owned(), one_or_many_json(status_json(), "Filter by status: any of them.")),
        ("type".to_owned(), one_or_many_json(type_json(), "Filter by type: any of them.")),
        (
            "label".to_owned(),
            one_or_many_json(any_text_json(), "Filter by label (case-insensitive): all of them."),
        ),
        ("assignee".to_owned(), prop_json("string", "Filter by assignee.")),
        ("priority".to_owned(), one_or_many_json(priority_json(), "Filter by priority: any of them.")),
        (
            "q".to_owned(),
            prop_json("string", "Filter by a part of the id, title or labels (case-insensitive)."),
        ),
    ];
    let ghost head = seq![
        ("status"@, one_or_many(status_prop(), "Filter by status: any of them."@)),
        ("type"@, one_or_many(type_prop(), "Filter by type: any of them."@)),
        ("label"@, one_or_many(any_text(), "Filter by label (case-insensitive): all of them."@)),
        ("assignee"@, prop("string"@, "Filter by assignee."@)),
        ("priority"@, one_or_many(priority_prop(), "Filter by priority: any of them."@)),
        (
            "q"@,
            prop("string"@, "Filter by a part of the id, title or labels (case-insensitive)."@),
        ),
    ];
    assert(pairs(v@) =~= head);
    push_page_props(&mut v);
    v
}

// ---- The shape of a page ------------------------------------------------------

/// The schema of the page that a list returns; `first` names the property that says how far
/// in it begins.
pub open spec fn page_schema(first: Seq<char>) -> JsonView {
    schema(
        seq![
            ("total"@, count_prop(0, "How many there are in all."@)),
            ("returned"@, count_prop(0, "How many are on this page."@)),
            (first, count_prop(0, "How many were skipped."@)),
            ("limit"@, count_prop(0, "The limit in force (0 = no limit)."@)),
            ("sort"@, prop("string"@, "The order in force."@)),
            ("dir"@, prop("string"@, "Its direction: `asc` or `desc`."@)),
            ("filters"@, prop("object"@, "The filters in force, canonicalized."@)),
            ("source"@, prop("string"@, "Which tier answered."@)),
            ("items"@, list_prop(obj(seq![("type"@, JsonView::Text("object"@))]), "The page."@)),
        ],
        seq!["total"@, "returned"@, first, "limit"@, "items"@],
    )
}

fn page_schema_json(first: &str) -> (r: Json)
    ensures
        r.shape() == page_schema(first@),
{
    let inner: Vec<(String, Json)> = vec![("type".to_owned(), string("object"))];
    assert(pairs(inner@) =~= seq![("type"@, JsonView::Text("object"@))]);
    let v: Vec<(String, Json)> = vec![
        ("total".to_owned(), count_prop_json(0, "How many there are in all.")),
        ("returned".to_owned(), count_prop_json(0, "How many are on this page.")),
        (first.to_owned(), count_prop_json(0, "How many were skipped.")),
        ("limit".to_owned(), count_prop_json(0, "The limit in force (0 = no limit).")),
        ("sort".to_owned(), prop_json("string", "The order in force.")),
        ("dir".to_owned(), prop_json("string", "Its direction: `asc` or `desc`.")),
        ("filters".to_owned(), prop_json("object", "The filters in force, canonicalized.")),
        ("source".to_owned(), prop_json("string", "Which tier answered.")),
        ("items".to_owned(), list_prop_json(object(inner), "The page.")),
    ];
    assert(pairs(v@) =~= seq![
        ("total"@, count_prop(0, "How many there are in all."@)),
        ("returned"@, count_prop(0, "How many are on this page."@)),
        (first@, count_prop(0, "How many were skipped."@)),
        ("limit"@, count_prop(0, "The limit in force (0 = no limit)."@)),
        ("sort"@, prop("string"@, "The order in force."@)),
        ("dir"@, prop("string"@, "Its direction: `asc` or `desc`."@)),
        ("filters"@, prop("object"@, "The filters in force, canonicalized."@)),
        ("source"@, prop("string"@, "Which tier answered."@)),
        ("items"@, list_prop(obj(seq![("type"@, JsonView::Text("object"@))]), "The page."@)),
    ]);
    let required: Vec<String> = vec![
        "total".to_owned(),
        "returned".to_owned(),
        first.to_owned(),
        "limit".to_owned(),
        "items".to_owned(),
    ];
    assert(required.deep_view() =~= seq!["total"@, "returned"@, first@, "limit"@, "items"@]);
    schema_json(v, &required)
}

// ---- The tools ----------------------------------------------------------------

/// A tool.
pub open spec fn tool(name: Seq<char>, description: Seq<char>, input: JsonView) -> JsonView {
    obj(
        seq![
            ("name"@, JsonView::Text(name)),
            ("description"@, JsonView::Text(description)),
            ("inputSchema"@, input),
        ],
    )
}

fn tool_json(name: &str, description: &str, input: Json) -> (r: Json)
    ensures
        r.shape() == tool(name@, description@, input.shape()),
{
    let ghost i = input.shape();
    let v: Vec<(String, Json)> = vec![
        ("name".to_owned(), string(name)),
        ("description".to_owned(), string(description)),
        ("inputSchema".to_owned(), input),
    ];
    assert(pairs(v@) =~= seq![
        ("name"@, JsonView::Text(name@)),
        ("description"@, JsonView::Text(description@)),
        ("inputSchema"@, i),
    ]);
    object(v)
}

/// A tool that returns a page.
pub open spec fn paged_tool(
    name: Seq<char>,
    description: Seq<char>,
    input: JsonView,
    first: Seq<char>,
) -> JsonView {
    obj(
        seq![
            ("name"@, JsonView::Text(name)),
            ("description"@, JsonView::Text(description)),
            ("inputSchema"@, input),
            ("outputSchema"@, page_schema(first)),
        ],
    )
}

fn paged_tool_json(name: &str, description: &str, input: Json, first: &str) -> (r: Json)
    ensures
        r.shape() == paged_tool(name@, description@, input.shape(), first@),
{
    let ghost i = input.shape();
    let v: Vec<(String, Json)> = vec![
        ("name".to_owned(), string(name)),
        ("description".to_owned(), string(description)),
        ("inputSchema".to_owned(), input),
        ("outputSchema".to_owned(), page_schema_json(first)),
    ];
    assert(pairs(v@) =~= seq![
        ("name"@, JsonView::Text(name@)),
        ("description"@, JsonView::Text(description@)),
        ("inputSchema"@, i),
        ("outputSchema"@, page_schema(first@)),
    ]);
    object(v)
}

pub open spec fn ready_tool() -> JsonView {
    paged_tool(
        "clove_ready"@,
        "List work items that are ready to start now: open/in-progress items whose hard dependencies are all closed and which have no dangling dependencies. Ordered by (priority, dependency topology). This is the primary 'what should I work on?' query."@,
        schema(filter_props(), Seq::empty()),
        "offset"@,
    )
}

fn ready_json() -> (r: Json)
    ensures
        r.shape() == ready_tool(),
{
    paged_tool_json(
        "clove_ready",
        "List work items that are ready to start now: open/in-progress items whose hard dependencies are all closed and which have no dangling dependencies. Ordered by (priority, dependency topology). This is the primary 'what should I work on?' query.",
        schema_json(filter_props_json(), &none()),
        "offset",
    )
}

pub open spec fn blocked_tool() -> JsonView {
    paged_tool(
        "clove_blocked"@,
        "List work items blocked by open or missing dependencies, each with its `blocked_by` ids. Ordered by (priority, topology)."@,
        schema(
            filter_props().push(
                (
                    "include_warnings"@,
                    prop(
                        "boolean"@,
                        "Also include items blocked only by dangling (missing) deps."@,
                    ),
                ),
            ),
            Seq::empty(),
        ),
        "offset"@,
    )
}

fn blocked_json() -> (r: Json)
    ensures
        r.shape() == blocked_tool(),
{
    let mut v = filter_props_json();
    let ghost start = pairs(v@);
    v.push(
        (
            "include_warnings".to_owned(),
            prop_json("boolean", "Also include items blocked only by dangling (missing) deps."),
        ),
    );
    assert(pairs(v@) =~= start.push(
        (
            "include_warnings"@,
            prop("boolean"@, "Also include items blocked only by dangling (missing) deps."@),
        ),
    ));
    paged_tool_json(
        "clove_blocked",
        "List work items blocked by open or missing dependencies, each with its `blocked_by` ids. Ordered by (priority, topology).",
        schema_json(v, &none()),
        "offset",
    )
}

pub open spec fn list_tool() -> JsonView {
    paged_tool(
        "clove_list"@,
        "List work items with optional filters, ordered by (priority, topology, id)."@,
        schema(filter_props(), Seq::empty()),
        "offset"@,
    )
}

fn list_json() -> (r: Json)
    ensures
        r.shape() == list_tool(),
{
    paged_tool_json(
        "clove_list",
        "List work items with optional filters, ordered by (priority, topology, id).",
        schema_json(filter_props_json(), &none()),
        "offset",
    )
}

pub open spec fn show_tool() -> JsonView {
    tool(
        "clove_show"@,
        "Show one work item in full: all fields, the Markdown body, comment count, and computed `ready`/`blocked_by`."@,
        schema(seq![("id"@, id_prop())] + shape_props(), seq!["id"@]),
    )
}

fn show_json() -> (r: Json)
    ensures
        r.shape() == show_tool(),
{
    let mut v: Vec<(String, Json)> = vec![("id".to_owned(), id_json())];
    assert(pairs(v@) =~= seq![("id"@, id_prop())]);
    push_shape_props(&mut v);
    tool_json(
        "clove_show",
        "Show one work item in full: all fields, the Markdown body, comment count, and computed `ready`/`blocked_by`.",
        schema_json(v, &one("id")),
    )
}

pub open spec fn search_tool() -> JsonView {
    paged_tool(
        "clove_search"@,
        "Full-text search over item titles, labels, and bodies (case-insensitive substring; title matches rank first)."@,
        schema(
            seq![("text"@, prop("string"@, "The text to search for."@))] + page_props(),
            seq!["text"@],
        ),
        "offset"@,
    )
}

fn search_json() -> (r: Json)
    ensures
        r.shape() == search_tool(),
{
    let mut v: Vec<(String, Json)> = vec![
        ("text".to_owned(), prop_json("string", "The text to search for.")),
    ];
    assert(pairs(v@) =~= seq![("text"@, prop("string"@, "The text to search for."@))]);
    push_page_props(&mut v);
    paged_tool_json(
        "clove_search",
        "Full-text search over item titles, labels, and bodies (case-insensitive substring; title matches rank first).",
        schema_json(v, &one("text")),
        "offset",
    )
}

pub open spec fn comments_tool() -> JsonView {
    paged_tool(
        "clove_comments"@,
        "List an item's comments, the newest kept when a limit cuts the thread."@,
        schema(
            seq![
                ("id"@, id_prop()),
                ("limit"@, limit_prop()),
                ("skip_newest"@, count_prop(0, "Page back past this many of the newest."@)),
            ] + shape_props(),
            seq!["id"@],
        ),
        "skip_newest"@,
    )
}

fn comments_json() -> (r: Json)
    ensures
        r.shape() == comments_tool(),
{
    let mut v: Vec<(String, Json)> = vec![
        ("id".to_owned(), id_json()),
        ("limit".to_owned(), count_prop_json(0, "Max results (0 = no limit).")),
        ("skip_newest".to_owned(), count_prop_json(0, "Page back past this many of the newest.")),
    ];
    assert(pairs(v@) =~= seq![
        ("id"@, id_prop()),
        ("limit"@, limit_prop()),
        ("skip_newest"@, count_prop(0, "Page back past this many of the newest."@)),
    ]);
    push_shape_props(&mut v);
    paged_tool_json(
        "clove_comments",
        "List an item's comments, the newest kept when a limit cuts the thread.",
        schema_json(v, &one("id")),
        "skip_newest",
    )
}

pub open spec fn dep_tree_tool() -> JsonView {
    tool(
        "clove_dep_tree"@,
        "Render the dependency tree rooted at an item (depth-limited), with per-node status, `ready`, and `cycle_ref` markers."@,
        schema(
            seq![("id"@, id_prop()), ("depth"@, count_prop(1, "Maximum depth (default 5)."@))]
                + shape_props(),
            seq!["id"@],
        ),
    )
}

fn dep_tree_json() -> (r: Json)
    ensures
        r.shape() == dep_tree_tool(),
{
    let mut v: Vec<(String, Json)> = vec![
        ("id".to_owned(), id_json()),
        ("depth".to_owned(), count_prop_json(1, "Maximum depth (default 5).")),
    ];
    assert(pairs(v@) =~= seq![
        ("id"@, id_prop()),
        ("depth"@, count_prop(1, "Maximum depth (default 5)."@)),
    ]);
    push_shape_props(&mut v);
    tool_json(
        "clove_dep_tree",
        "Render the dependency tree rooted at an item (depth-limited), with per-node status, `ready`, and `cycle_ref` markers.",
        schema_json(v, &one("id")),
    )
}

pub open spec fn stats_tool() -> JsonView {
    tool(
        "clove_stats"@,
        "Aggregate analytics for the repository: counts by status/type/priority/assignee/label, ready/blocked/excluded/dangling totals, cycle count, per-epic rollups, and created/closed throughput."@,
        schema(
            seq![
                (
                    "top"@,
                    count_prop(
                        0,
                        "Cap assignee/label breakdowns to the N highest (default 10; 0 = no cap)."@,
                    ),
                ),
                ("no_epics"@, prop("boolean"@, "Skip the per-epic completion rollup."@)),
            ] + shape_props(),
            Seq::empty(),
        ),
    )
}

fn stats_json() -> (r: Json)
    ensures
        r.shape() == stats_tool(),
{
    let mut v: Vec<(String, Json)> = vec![
        (
            "top".to_owned(),
            count_prop_json(
                0,
                "Cap assignee/label breakdowns to the N highest (default 10; 0 = no cap).",
            ),
        ),
        ("no_epics".to_owned(), prop_json("boolean", "Skip the per-epic completion rollup.")),
    ];
    assert(pairs(v@) =~= seq![
        (
            "top"@,
            count_prop(
                0,
                "Cap assignee/label breakdowns to the N highest (default 10; 0 = no cap)."@,
            ),
        ),
        ("no_epics"@, prop("boolean"@, "Skip the per-epic completion rollup."@)),
    ]);
    push_shape_props(&mut v);
    tool_json(
        "clove_stats",
        "Aggregate analytics for the repository: counts by status/type/priority/assignee/label, ready/blocked/excluded/dangling totals, cycle count, per-epic rollups, and created/closed throughput.",
        schema_json(v, &none()),
    )
}

pub open spec fn new_tool() -> JsonView {
    tool(
        "clove_new"@,
        "Create a new work item. Returns its generated id and file path."@,
        schema(
            seq![
                ("title"@, prop("string"@, "The item title (required)."@)),
                ("type"@, type_prop()),
                ("priority"@, priority_prop()),
                ("labels"@, list_prop(any_text(), "Labels to attach (case-insensitive)."@)),
                ("deps"@, list_prop(any_text(), "Ids this item hard-depends on."@)),
                ("parent"@, prop("string"@, "Parent item id (for epics)."@)),
                ("assignee"@, prop("string"@, "Assignee."@)),
                ("body"@, prop("string"@, "Markdown body."@)),
            ],
            seq!["title"@],
        ),
    )
}

fn new_json() -> (r: Json)
    ensures
        r.shape() == new_tool(),
{
    let v: Vec<(String, Json)> = vec![
        ("title".to_owned(), prop_json("string", "The item title (required).")),
        ("type".to_owned(), type_json()),
        ("priority".to_owned(), priority_json()),
        (
            "labels".to_owned(),
            list_prop_json(any_text_json(), "Labels to attach (case-insensitive)."),
        ),
        ("deps".to_owned(), list_prop_json(any_text_json(), "Ids this item hard-depends on.")),
        ("parent".to_owned(), prop_json("string", "Parent item id (for epics).")),
        ("assignee".to_owned(), prop_json("string", "Assignee.")),
        ("body".to_owned(), prop_json("string", "Markdown body.")),
    ];
    assert(pairs(v@) =~= seq![
        ("title"@, prop("string"@, "The item title (required)."@)),
        ("type"@, type_prop()),
        ("priority"@, priority_prop()),
        ("labels"@, list_prop(any_text(), "Labels to attach (case-insensitive)."@)),
        ("deps"@, list_prop(any_text(), "Ids this item hard-depends on."@)),
        ("parent"@, prop("string"@, "Parent item id (for epics)."@)),
        ("assignee"@, prop("string"@, "Assignee."@)),
        ("body"@, prop("string"@, "Markdown body."@)),
    ]);
    tool_json(
        "clove_new",
        "Create a new work item. Returns its generated id and file path.",
        schema_json(v, &one("title")),
    )
}

pub open spec fn status_tool() -> JsonView {
    tool(
        "clove_status"@,
        "Change an item's status (open | in_progress | closed). Closing sets the closed timestamp; reopening clears it."@,
        schema(
            seq![("id"@, id_prop()), ("status"@, status_prop())],
            seq!["id"@, "status"@],
        ),
    )
}

fn status_tool_json() -> (r: Json)
    ensures
        r.shape() == status_tool(),
{
    let v: Vec<(String, Json)> = vec![
        ("id".to_owned(), id_json()),
        ("status".to_owned(), status_json()),
    ];
    assert(pairs(v@) =~= seq![("id"@, id_prop()), ("status"@, status_prop())]);
    tool_json(
        "clove_status",
        "Change an item's status (open | in_progress | closed). Closing sets the closed timestamp; reopening clears it.",
        schema_json(v, &two("id", "status")),
    )
}

pub open spec fn edit_tool() -> JsonView {
    tool(
        "clove_edit"@,
        "Edit one or more fields of an item in a single atomic write: status, priority, type, title, assignee, and label add/remove."@,
        schema(
            seq![
                ("id"@, id_prop()),
                ("status"@, status_prop()),
                ("priority"@, priority_prop()),
                ("type"@, type_prop()),
                ("title"@, prop("string"@, "New title."@)),
                ("assignee"@, prop("string"@, "New assignee (empty string clears it)."@)),
                ("add_labels"@, list_prop(any_text(), "Labels to add."@)),
                ("remove_labels"@, list_prop(any_text(), "Labels to remove."@)),
            ],
            seq!["id"@],
        ),
    )
}

fn edit_json() -> (r: Json)
    ensures
        r.shape() == edit_tool(),
{
    let v: Vec<(String, Json)> = vec![
        ("id".to_owned(), id_json()),
        ("status".to_owned(), status_json()),
        ("priority".to_owned(), priority_json()),
        ("type".to_owned(), type_json()),
        ("title".to_owned(), prop_json("string", "New title.")),
        ("assignee".to_owned(), prop_json("string", "New assignee (empty string clears it).")),
        ("add_labels".to_owned(), list_prop_json(any_text_json(), "Labels to add.")),
        ("remove_labels".to_owned(), list_prop_json(any_text_json(), "Labels to remove.")),
    ];
    assert(pairs(v@) =~= seq![
        ("id"@, id_prop()),
        ("status"@, status_prop()),
        ("priority"@, priority_prop()),
        ("type"@, type_prop()),
        ("title"@, prop("string"@, "New title."@)),
        ("assignee"@, prop("string"@, "New assignee (empty string clears it)."@)),
        ("add_labels"@, list_prop(any_text(), "Labels to add."@)),
        ("remove_labels"@, list_prop(any_text(), "Labels to remove."@)),
    ]);
    tool_json(
        "clove_edit",
        "Edit one or more fields of an item in a single atomic write: status, priority, type, title, assignee, and label add/remove.",
        schema_json(v, &one("id")),
    )
}

pub open spec fn comment_tool() -> JsonView {
    tool(
        "clove_comment"@,
        "Append a comment to an item (author resolved from CLOVE_AUTHOR / GIT_AUTHOR_EMAIL)."@,
        schema(
            seq![("id"@, id_prop()), ("message"@, prop("string"@, "The comment body."@))],
            seq!["id"@, "message"@],
        ),
    )
}

fn comment_json() -> (r: Json)
    ensures
        r.shape() == comment_tool(),
{
    let v: Vec<(String, Json)> = vec![
        ("id".to_owned(), id_json()),
        ("message".to_owned(), prop_json("string", "The comment body.")),
    ];
    assert(pairs(v@) =~= seq![
        ("id"@, id_prop()),
        ("message"@, prop("string"@, "The comment body."@)),
    ]);
    tool_json(
        "clove_comment",
        "Append a comment to an item (author resolved from CLOVE_AUTHOR / GIT_AUTHOR_EMAIL).",
        schema_json(v, &two("id", "message")),
    )
}

pub open spec fn dep_add_tool() -> JsonView {
    tool(
        "clove_dep_add"@,
        "Add a hard dependency: `id` depends on `dep_id`. Rejects self-loops and dependencies that would create a cycle."@,
        schema(
            seq![
                ("id"@, id_prop()),
                ("dep_id"@, prop("string"@, "The id `id` should depend on."@)),
            ],
            seq!["id"@, "dep_id"@],
        ),
    )
}

fn dep_add_json() -> (r: Json)
    ensures
        r.shape() == dep_add_tool(),
{
    let v: Vec<(String, Json)> = vec![
        ("id".to_owned(), id_json()),
        ("dep_id".to_owned(), prop_json("string", "The id `id` should depend on.")),
    ];
    assert(pairs(v@) =~= seq![
        ("id"@, id_prop()),
        ("dep_id"@, prop("string"@, "The id `id` should depend on."@)),
    ]);
    tool_json(
        "clove_dep_add",
        "Add a hard dependency: `id` depends on `dep_id`. Rejects self-loops and dependencies that would create a cycle.",
        schema_json(v, &two("id", "dep_id")),
    )
}

pub open spec fn dep_remove_tool() -> JsonView {
    tool(
        "clove_dep_remove"@,
        "Remove a hard dependency of an item."@,
        schema(
            seq![
                ("id"@, id_prop()),
                ("dep_id"@, prop("string"@, "The id `id` should no longer depend on."@)),
            ],
            seq!["id"@, "dep_id"@],
        ),
    )
}

fn dep_remove_json() -> (r: Json)
    ensures
        r.shape() == dep_remove_tool(),
{
    let v: Vec<(String, Json)> = vec![
        ("id".to_owned(), id_json()),
        ("dep_id".to_owned(), prop_json("string", "The id `id` should no longer depend on.")),
    ];
    assert(pairs(v@) =~= seq![
        ("id"@, id_prop()),
        ("dep_id"@, prop("string"@, "The id `id` should no longer depend on."@)),
    ]);
    tool_json(
        "clove_dep_remove",
        "Remove a hard dependency of an item.",
        schema_json(v, &two("id", "dep_id")),
    )
}

pub open spec fn set_parent_tool() -> JsonView {
    tool(
        "clove_set_parent"@,
        "Set or clear the parent of an item."@,
        schema(
            seq![
                ("id"@, id_prop()),
                ("parent"@, prop("string"@, "The new parent's id (absent clears it)."@)),
            ],
            seq!["id"@],
        ),
    )
}

fn set_parent_json() -> (r: Json)
    ensures
        r.shape() == set_parent_tool(),
{
    let v: Vec<(String, Json)> = vec![
        ("id".to_owned(), id_json()),
        ("parent".to_owned(), prop_json("string", "The new parent's id (absent clears it).")),
    ];
    assert(pairs(v@) =~= seq![
        ("id"@, id_prop()),
        ("parent"@, prop("string"@, "The new parent's id (absent clears it)."@)),
    ]);
    tool_json(
        "clove_set_parent",
        "Set or clear the parent of an item.",
        schema_json(v, &one("id")),
    )
}

/// The tools that the server advertises.
pub open spec fn tools() -> Seq<JsonView> {
    seq![
        ready_tool(),
        blocked_tool(),
        list_tool(),
        show_tool(),
        search_tool(),
        comments_tool(),
        dep_tree_tool(),
        stats_tool(),
        new_tool(),
        status_tool(),
        edit_tool(),
        comment_tool(),
        dep_add_tool(),
        dep_remove_tool(),
        set_parent_tool(),
    ]
}

/// The list of tools.
pub fn tool_list() -> (r: Vec<Json>)
    ensures
        r.deep_view() == tools(),
{
    let v: Vec<Json> = vec![
        ready_json(),
        blocked_json(),
        list_json(),
        show_json(),
        search_json(),
        comments_json(),
        dep_tree_json(),
        stats_json(),
        new_json(),
        status_tool_json(),
        edit_json(),
        comment_json(),
        dep_add_json(),
        dep_remove_json(),
        set_parent_json(),
    ];
    assert(v.deep_view() =~= tools());
    v
}

proof fn lemma_tool_name(name: Seq<char>, description: Seq<char>, input: JsonView, first: Seq<char>)
    ensures
        tool(name, description, input).member("name"@) == Some(JsonView::Text(name)),
        paged_tool(name, description, input, first).member("name"@) == Some(JsonView::Text(name)),
{
    reveal_strlit("name");
    reveal_strlit("description");
    reveal_strlit("inputSchema");
    reveal_strlit("outputSchema");
    assert("name"@.len() == 4);
    let p = seq![
        ("name"@, JsonView::Text(name)),
        ("description"@, JsonView::Text(description)),
        ("inputSchema"@, input),
    ];
    law_objects_hold_their_pairs(p, 0);
    let q = seq![
        ("name"@, JsonView::Text(name)),
        ("description"@, JsonView::Text(description)),
        ("inputSchema"@, input),
        ("outputSchema"@, page_schema(first)),
    ];
    law_objects_hold_their_pairs(q, 0);
}

/// The tools have the names that are known elsewhere, so that what is allowed by name is
/// what the server offers.
pub proof fn law_the_tools_have_their_names(i: int)
    requires
        0 <= i < tool_names().len(),
    ensures
        tools().len() == tool_names().len(),
        tools()[i].member("name"@) == Some(JsonView::Text(tool_names()[i])),
{
    assert forall|n: Seq<char>, d: Seq<char>, s: JsonView| #[trigger] tool(n, d, s).member("name"@)
        == Some(JsonView::Text(n)) by {
        lemma_tool_name(n, d, s, Seq::empty());
    }
    assert forall|n: Seq<char>, d: Seq<char>, s: JsonView, f: Seq<char>| #[trigger] paged_tool(
        n,
        d,
        s,
        f,
    ).member("name"@) == Some(JsonView::Text(n)) by {
        lemma_tool_name(n, d, s, f);
    }
}

/// A property has its kind and its description.
pub proof fn law_a_property_has_its_kind(kind: Seq<char>, description: Seq<char>)
    ensures
        prop(kind, description).member("type"@) == Some(JsonView::Text(kind)),
        prop(kind, description).member("description"@) == Some(JsonView::Text(description)),
{
    reveal_strlit("type");
    reveal_strlit("description");
    let p = seq![
        ("type"@, JsonView::Text(kind)),
        ("description"@, JsonView::Text(description)),
    ];
    assert(prop(kind, description) == obj(p));
    assert(p[0].0 == "type"@ && p[1].0 == "description"@);
    law_distinct_pairs_are_members(p);
}

/// A property that takes a word offers exactly its words.
pub proof fn law_a_word_property_offers_its_words(words: Seq<Seq<char>>, description: Seq<char>)
    ensures
        word_prop(words, description).member("type"@) == Some(JsonView::Text("string"@)),
        word_prop(words, description).member("enum"@) == Some(texts(words)),
        word_prop(words, description).member("description"@) == Some(JsonView::Text(description)),
{
    reveal_strlit("type");
    reveal_strlit("enum");
    reveal_strlit("description");
    let p = seq![
        ("type"@, JsonView::Text("string"@)),
        ("enum"@, texts(words)),
        ("description"@, JsonView::Text(description)),
    ];
    assert(word_prop(words, description) == obj(p));
    assert(p[0].0 == "type"@ && p[1].0 == "enum"@ && p[2].0 == "description"@);
    assert("type"@[0] != "enum"@[0]);
    law_distinct_pairs_are_members(p);
}

/// A property that takes a count has its least value.
pub proof fn law_a_count_property_has_its_minimum(min: int, description: Seq<char>)
    ensures
        count_prop(min, description).member("type"@) == Some(JsonView::Text("integer"@)),
        count_prop(min, description).member("minimum"@) == Some(num(min)),
        count_prop(min, description).member("description"@) == Some(JsonView::Text(description)),
{
    reveal_strlit("type");
    reveal_strlit("minimum");
    reveal_strlit("description");
    let p = seq![
        ("type"@, JsonView::Text("integer"@)),
        ("minimum"@, num(min)),
        ("description"@, JsonView::Text(description)),
    ];
    assert(count_prop(min, description) == obj(p));
    assert(p[0].0 == "type"@ && p[1].0 == "minimum"@ && p[2].0 == "description"@);
    law_distinct_pairs_are_members(p);
}

/// A property that takes a list says what it is a list of.
pub proof fn law_a_list_property_has_its_items(items: JsonView, description: Seq<char>)
    ensures
        list_prop(items, description).member("type"@) == Some(JsonView::Text("array"@)),
        list_prop(items, description).member("items"@) == Some(items),
        list_prop(items, description).member("description"@) == Some(JsonView::Text(description)),
{
    reveal_strlit("type");
    reveal_strlit("items");
    reveal_strlit("description");
    let p = seq![
        ("type"@, JsonView::Text("array"@)),
        ("items"@, items),
        ("description"@, JsonView::Text(description)),
    ];
    assert(list_prop(items, description) == obj(p));
    assert(p[0].0 == "type"@ && p[1].0 == "items"@ && p[2].0 == "description"@);
    law_distinct_pairs_are_members(p);
}

/// A property that takes one value or several offers both.
pub proof fn law_a_property_takes_one_or_many(one: JsonView, description: Seq<char>)
    ensures
        one_or_many(one, description).member("anyOf"@) == Some(JsonView::Array(seq![one, list_prop(one, "Several of them."@)])),
        one_or_many(one, description).member("description"@) == Some(JsonView::Text(description)),
{
    reveal_strlit("anyOf");
    reveal_strlit("description");
    let p = seq![
        ("anyOf"@, JsonView::Array(seq![one, list_prop(one, "Several of them."@)])),
        ("description"@, JsonView::Text(description)),
    ];
    assert(one_or_many(one, description) == obj(p));
    assert(p[0].0 == "anyOf"@ && p[1].0 == "description"@);
    law_distinct_pairs_are_members(p);
}

/// A schema has its properties and says which are required.
pub proof fn law_a_schema_has_its_properties(properties: Seq<(Seq<char>, JsonView)>, required: Seq<Seq<char>>)
    ensures
        schema(properties, required).member("type"@) == Some(JsonView::Text("object"@)),
        schema(properties, required).member("properties"@) == Some(obj(properties)),
        schema(properties, required).member("required"@) == Some(texts(required)),
{
    reveal_strlit("type");
    reveal_strlit("properties");
    reveal_strlit("required");
    let p = seq![
        ("type"@, JsonView::Text("object"@)),
        ("properties"@, obj(properties)),
        ("required"@, texts(required)),
    ];
    assert(schema(properties, required) == obj(p));
    assert(p[0].0 == "type"@ && p[1].0 == "properties"@ && p[2].0 == "required"@);
    law_distinct_pairs_are_members(p);
}

/// A tool is advertised with its name, its description and the schema of its arguments.
pub proof fn law_a_tool_has_its_schema(name: Seq<char>, description: Seq<char>, input: JsonView)
    ensures
        tool(name, description, input).member("name"@) == Some(JsonView::Text(name)),
        tool(name, description, input).member("description"@) == Some(JsonView::Text(description)),
        tool(name, description, input).member("inputSchema"@) == Some(input),
{
    reveal_strlit("name");
    reveal_strlit("description");
    reveal_strlit("inputSchema");
    let p = seq![
        ("name"@, JsonView::Text(name)),
        ("description"@, JsonView::Text(description)),
        ("inputSchema"@, input),
    ];
    assert(tool(name, description, input) == obj(p));
    assert(p[0].0 == "name"@ && p[1].0 == "description"@ && p[2].0 == "inputSchema"@);
    assert("description"@[0] != "inputSchema"@[0]);
    law_distinct_pairs_are_members(p);
}

/// A tool that answers in pages is advertised with the schema of its pages too.
pub proof fn law_a_paged_tool_has_both_schemas(
    name: Seq<char>,
    description: Seq<char>,
    input: JsonView,
    first: Seq<char>,
)
    ensures
        paged_tool(name, description, input, first).member("name"@) == Some(JsonView::Text(name)),
        paged_tool(name, description, input, first).member("description"@) == Some(JsonView::Text(description)),
        paged_tool(name, description, input, first).member("inputSchema"@) == Some(input),
        paged_tool(name, description, input, first).member("outputSchema"@) == Some(page_schema(first)),
{
    reveal_strlit("name");
    reveal_strlit("description");
    reveal_strlit("inputSchema");
    reveal_strlit("outputSchema");
    let p = seq![
        ("name"@, JsonView::Text(name)),
        ("description"@, JsonView::Text(description)),
        ("inputSchema"@, input),
        ("outputSchema"@, page_schema(first)),
    ];
    assert(paged_tool(name, description, input, first) == obj(p));
    assert(p[0].0 == "name"@ && p[1].0 == "description"@ && p[2].0 == "inputSchema"@ && p[3].0 == "outputSchema"@);
    assert("description"@[0] != "inputSchema"@[0]);
    law_distinct_pairs_are_members(p);
}

/// The priorities that are offered are those that there are.
pub proof fn law_priorities_are_offered_from_highest_to_lowest()
    ensures
        priority_prop().member("type"@) == Some(JsonView::Text("integer"@)),
        priority_prop().member("minimum"@) == Some(num(0)),
        priority_prop().member("maximum"@) == Some(num(4)),
        priority_prop().member("description"@) == Some(JsonView::Text("Priority (0 = highest, default 2)."@)),
{
    reveal_strlit("type");
    reveal_strlit("minimum");
    reveal_strlit("maximum");
    reveal_strlit("description");
    let p = seq![
        ("type"@, JsonView::Text("integer"@)),
        ("minimum"@, num(0)),
        ("maximum"@, num(4)),
        ("description"@, JsonView::Text("Priority (0 = highest, default 2)."@)),
    ];
    assert(priority_prop() == obj(p));
    assert(p[0].0 == "type"@ && p[1].0 == "minimum"@ && p[2].0 == "maximum"@ && p[3].0 == "description"@);
    assert("minimum"@[1] != "maximum"@[1]);
    law_distinct_pairs_are_members(p);
}

/// Every word that a tool offers for a status or a type is understood, and every status and
/// type can be asked for.
pub proof fn law_the_words_that_are_offered_are_understood(s: ItemStatus, t: ItemType)
    ensures
        status_prop() == word_prop(seq!["open"@, "in_progress"@, "closed"@], "Item status."@),
        seq!["open"@, "in_progress"@, "closed"@].contains(s.word()),
        type_prop() == word_prop(
            seq!["bug"@, "feature"@, "chore"@, "docs"@, "epic"@],
            "Item type."@,
        ),
        seq!["bug"@, "feature"@, "chore"@, "docs"@, "epic"@].contains(t.word()),
        status_of(s.word()) == Ok::<ItemStatus, crate::error::ErrorView>(s),
        type_of(t.word()) == Ok::<ItemType, crate::error::ErrorView>(t),
{
    law_words_are_read_as_what_they_name(s, t, s.word());
    let a = seq!["open"@, "in_progress"@, "closed"@];
    assert(a[0] == "open"@ && a[1] == "in_progress"@ && a[2] == "closed"@);
    let b = seq!["bug"@, "feature"@, "chore"@, "docs"@, "epic"@];
    assert(b[0] == "bug"@ && b[1] == "feature"@ && b[2] == "chore"@ && b[3] == "docs"@ && b[4]
        == "epic"@);
}

proof fn lemma_ready_requires()
    ensures
        ready_tool().member("inputSchema"@) matches Some(s) && s.member("required"@) == Some(texts(Seq::empty())),
{
    let d = "List work items that are ready to start now: open/in-progress items whose hard dependencies are all closed and which have no dangling dependencies. Ordered by (priority, dependency topology). This is the primary 'what should I work on?' query."@;
    let p = filter_props();
    law_a_paged_tool_has_both_schemas("clove_ready"@, d, schema(p, Seq::empty()), "offset"@);
    law_a_schema_has_its_properties(p, Seq::empty());
}

proof fn lemma_blocked_requires()
    ensures
        blocked_tool().member("inputSchema"@) matches Some(s) && s.member("required"@) == Some(texts(Seq::empty())),
{
    let d = "List work items blocked by open or missing dependencies, each with its `blocked_by` ids. Ordered by (priority, topology)."@;
    let p = filter_props().push(
                (
                    "include_warnings"@,
                    prop(
                        "boolean"@,
                        "Also include items blocked only by dangling (missing) deps."@,
                    ),
                ),
            );
    law_a_paged_tool_has_both_schemas("clove_blocked"@, d, schema(p, Seq::empty()), "offset"@);
    law_a_schema_has_its_properties(p, Seq::empty());
}

proof fn lemma_list_requires()
    ensures
        list_tool().member("inputSchema"@) matches Some(s) && s.member("required"@) == Some(texts(Seq::empty())),
{
    let d = "List work items with optional filters, ordered by (priority, topology, id)."@;
    let p = filter_props();
    law_a_paged_tool_has_both_schemas("clove_list"@, d, schema(p, Seq::empty()), "offset"@);
    law_a_schema_has_its_properties(p, Seq::empty());
}

proof fn lemma_show_requires()
    ensures
        show_tool().member("inputSchema"@) matches Some(s) && s.member("required"@) == Some(texts(seq!["id"@])),
{
    let d = "Show one work item in full: all fields, the Markdown body, comment count, and computed `ready`/`blocked_by`."@;
    let p = seq![("id"@, id_prop())] + shape_props();
    law_a_tool_has_its_schema("clove_show"@, d, schema(p, seq!["id"@]));
    law_a_schema_has_its_properties(p, seq!["id"@]);
}

proof fn lemma_search_requires()
    ensures
        search_tool().member("inputSchema"@) matches Some(s) && s.member("required"@) == Some(texts(seq!["text"@])),
{
    let d = "Full-text search over item titles, labels, and bodies (case-insensitive substring; title matches rank first)."@;
    let p = seq![("text"@, prop("string"@, "The text to search for."@))] + page_props();
    law_a_paged_tool_has_both_schemas("clove_search"@, d, schema(p, seq!["text"@]), "offset"@);
    law_a_schema_has_its_properties(p, seq!["text"@]);
}

proof fn lemma_comments_requires()
    ensures
        comments_tool().member("inputSchema"@) matches Some(s) && s.member("required"@) == Some(texts(seq!["id"@])),
{
    let d = "List an item's comments, the newest kept when a limit cuts the thread."@;
    let p = seq![
                ("id"@, id_prop()),
                ("limit"@, limit_prop()),
                ("skip_newest"@, count_prop(0, "Page back past this many of the newest."@)),
            ] + shape_props();
    law_a_paged_tool_has_both_schemas("clove_comments"@, d, schema(p, seq!["id"@]), "skip_newest"@);
    law_a_schema_has_its_properties(p, seq!["id"@]);
}

proof fn lemma_dep_tree_requires()
    ensures
        dep_tree_tool().member("inputSchema"@) matches Some(s) && s.member("required"@) == Some(texts(seq!["id"@])),
{
    let d = "Render the dependency tree rooted at an item (depth-limited), with per-node status, `ready`, and `cycle_ref` markers."@;
    let p = seq![("id"@, id_prop()), ("depth"@, count_prop(1, "Maximum depth (default 5)."@))]
                + shape_props();
    law_a_tool_has_its_schema("clove_dep_tree"@, d, schema(p, seq!["id"@]));
    law_a_schema_has_its_properties(p, seq!["id"@]);
}

proof fn lemma_stats_requires()
    ensures
        stats_tool().member("inputSchema"@) matches Some(s) && s.member("required"@) == Some(texts(Seq::empty())),
{
    let d = "Aggregate analytics for the repository: counts by status/type/priority/assignee/label, ready/blocked/excluded/dangling totals, cycle count, per-epic rollups, and created/closed throughput."@;
    let p = seq![
                (
                    "top"@,
                    count_prop(
                        0,
                        "Cap assignee/label breakdowns to the N highest (default 10; 0 = no cap)."@,
                    ),
                ),
                ("no_epics"@, prop("boolean"@, "Skip the per-epic completion rollup."@)),
            ] + shape_props();
    law_a_tool_has_its_schema("clove_stats"@, d, schema(p, Seq::empty()));
    law_a_schema_has_its_properties(p, Seq::empty());
}

proof fn lemma_new_requires()
    ensures
        new_tool().member("inputSchema"@) matches Some(s) && s.member("required"@) == Some(texts(seq!["title"@])),
{
    let d = "Create a new work item. Returns its generated id and file path."@;
    let p = seq![
                ("title"@, prop("string"@, "The item title (required)."@)),
                ("type"@, type_prop()),
                ("priority"@, priority_prop()),
                ("labels"@, list_prop(any_text(), "Labels to attach (case-insensitive)."@)),
                ("deps"@, list_prop(any_text(), "Ids this item hard-depends on."@)),
                ("parent"@, prop("string"@, "Parent item id (for epics)."@)),
                ("assignee"@, prop("string"@, "Assignee."@)),
                ("body"@, prop("string"@, "Markdown body."@)),
            ];
    law_a_tool_has_its_schema("clove_new"@, d, schema(p, seq!["title"@]));
    law_a_schema_has_its_properties(p, seq!["title"@]);
}

proof fn lemma_status_requires()
    ensures
        status_tool().member("inputSchema"@) matches Some(s) && s.member("required"@) == Some(texts(seq!["id"@, "status"@])),
{
    let d = "Change an item's status (open | in_progress | closed). Closing sets the closed timestamp; reopening clears it."@;
    let p = seq![("id"@, id_prop()), ("status"@, status_prop())];
    law_a_tool_has_its_schema("clove_status"@, d, schema(p, seq!["id"@, "status"@]));
    law_a_schema_has_its_properties(p, seq!["id"@, "status"@]);
}

proof fn lemma_edit_requires()
    ensures
        edit_tool().member("inputSchema"@) matches Some(s) && s.member("required"@) == Some(texts(seq!["id"@])),
{
    let d = "Edit one or more fields of an item in a single atomic write: status, priority, type, title, assignee, and label add/remove."@;
    let p = seq![
                ("id"@, id_prop()),
                ("status"@, status_prop()),
                ("priority"@, priority_prop()),
                ("type"@, type_prop()),
                ("title"@, prop("string"@, "New title."@)),
                ("assignee"@, prop("string"@, "New assignee (empty string clears it)."@)),
                ("add_labels"@, list_prop(any_text(), "Labels to add."@)),
                ("remove_labels"@, list_prop(any_text(), "Labels to remove."@)),
            ];
    law_a_tool_has_its_schema("clove_edit"@, d, schema(p, seq!["id"@]));
    law_a_schema_has_its_properties(p, seq!["id"@]);
}

proof fn lemma_comment_requires()
    ensures
        comment_tool().member("inputSchema"@) matches Some(s) && s.member("required"@) == Some(texts(seq!["id"@, "message"@])),
{
    let d = "Append a comment to an item (author resolved from CLOVE_AUTHOR / GIT_AUTHOR_EMAIL)."@;
    let p = seq![("id"@, id_prop()), ("message"@, prop("string"@, "The comment body."@))];
    law_a_tool_has_its_schema("clove_comment"@, d, schema(p, seq!["id"@, "message"@]));
    law_a_schema_has_its_properties(p, seq!["id"@, "message"@]);
}

proof fn lemma_dep_add_requires()
    ensures
        dep_add_tool().member("inputSchema"@) matches Some(s) && s.member("required"@) == Some(texts(seq!["id"@, "dep_id"@])),
{
    let d = "Add a hard dependency: `id` depends on `dep_id`. Rejects self-loops and dependencies that would create a cycle."@;
    let p = seq![
                ("id"@, id_prop()),
                ("dep_id"@, prop("string"@, "The id `id` should depend on."@)),
            ];
    law_a_tool_has_its_schema("clove_dep_add"@, d, schema(p, seq!["id"@, "dep_id"@]));
    law_a_schema_has_its_properties(p, seq!["id"@, "dep_id"@]);
}

proof fn lemma_dep_remove_requires()
    ensures
        dep_remove_tool().member("inputSchema"@) matches Some(s) && s.member("required"@) == Some(texts(seq!["id"@, "dep_id"@])),
{
    let d = "Remove a hard dependency of an item."@;
    let p = seq![
                ("id"@, id_prop()),
                ("dep_id"@, prop("string"@, "The id `id` should no longer depend on."@)),
            ];
    law_a_tool_has_its_schema("clove_dep_remove"@, d, schema(p, seq!["id"@, "dep_id"@]));
    law_a_schema_has_its_properties(p, seq!["id"@, "dep_id"@]);
}

proof fn lemma_set_parent_requires()
    ensures
        set_parent_tool().member("inputSchema"@) matches Some(s) && s.member("required"@) == Some(texts(seq!["id"@])),
{
    let d = "Set or clear the parent of an item."@;
    let p = seq![
                ("id"@, id_prop()),
                ("parent"@, prop("string"@, "The new parent's id (absent clears it)."@)),
            ];
    law_a_tool_has_its_schema("clove_set_parent"@, d, schema(p, seq!["id"@]));
    law_a_schema_has_its_properties(p, seq!["id"@]);
}

/// What each tool requires is what it cannot do without.
pub proof fn law_each_tool_requires_what_it_needs()
    ensures
        ready_tool().member("inputSchema"@) matches Some(s) && s.member("required"@) == Some(texts(Seq::empty())),
        blocked_tool().member("inputSchema"@) matches Some(s) && s.member("required"@) == Some(texts(Seq::empty())),
        list_tool().member("inputSchema"@) matches Some(s) && s.member("required"@) == Some(texts(Seq::empty())),
        show_tool().member("inputSchema"@) matches Some(s) && s.member("required"@) == Some(texts(seq!["id"@])),
        search_tool().member("inputSchema"@) matches Some(s) && s.member("required"@) == Some(texts(seq!["text"@])),
        comments_tool().member("inputSchema"@) matches Some(s) && s.member("required"@) == Some(texts(seq!["id"@])),
        dep_tree_tool().member("inputSchema"@) matches Some(s) && s.member("required"@) == Some(texts(seq!["id"@])),
        stats_tool().member("inputSchema"@) matches Some(s) && s.member("required"@) == Some(texts(Seq::empty())),
        new_tool().member("inputSchema"@) matches Some(s) && s.member("required"@) == Some(texts(seq!["title"@])),
        status_tool().member("inputSchema"@) matches Some(s) && s.member("required"@) == Some(texts(seq!["id"@, "status"@])),
        edit_tool().member("inputSchema"@) matches Some(s) && s.member("required"@) == Some(texts(seq!["id"@])),
        comment_tool().member("inputSchema"@) matches Some(s) && s.member("required"@) == Some(texts(seq!["id"@, "message"@])),
        dep_add_tool().member("inputSchema"@) matches Some(s) && s.member("required"@) == Some(texts(seq!["id"@, "dep_id"@])),
        dep_remove_tool().member("inputSchema"@) matches Some(s) && s.member("required"@) == Some(texts(seq!["id"@, "dep_id"@])),
        set_parent_tool().member("inputSchema"@) matches Some(s) && s.member("required"@) == Some(texts(seq!["id"@])),
{
    lemma_ready_requires();
    lemma_blocked_requires();
    lemma_list_requires();
    lemma_show_requires();
    lemma_search_requires();
    lemma_comments_requires();
    lemma_dep_tree_requires();
    lemma_stats_requires();
    lemma_new_requires();
    lemma_status_requires();
    lemma_edit_requires();
    lemma_comment_requires();
    lemma_dep_add_requires();
    lemma_dep_remove_requires();
    lemma_set_parent_requires();
}

} // verus!
