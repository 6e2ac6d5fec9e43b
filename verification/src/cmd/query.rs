//! `clove query`: list via a JSON filter.

use vstd::prelude::*;

use crate::cli::{order_named, spell, spelled, Order, QueryArgs, SortField};
use crate::cmd::ls::{asked_fields, fields_asked, projection_for, window_asked, ListPlan, PlanView, Projection};
use crate::cmd::listing::{lean_can_serve, window};
use crate::error::{invalid, invalid_field, CloveError, ErrorView};
use crate::json::{text_list, Json, JsonView};
use crate::json_text::json_parsed;
use crate::registry::install::borrowed;
use crate::text;
use crate::view::{filters_of, Filters};

verus! {

/// One filter value or several: `"open"` and `["open","in_progress"]` are both accepted.
#[derive(Debug, PartialEq, Eq)]
pub enum OneOrMany {
    One(String),
    Many(Vec<String>),
}

/// The values; none when the field is absent, which does not constrain.
pub open spec fn values_of(this: Option<OneOrMany>) -> Seq<Seq<char>> {
    match this {
        None => Seq::empty(),
        Some(OneOrMany::One(v)) => seq![v@],
        Some(OneOrMany::Many(v)) => v.deep_view(),
    }
}

impl OneOrMany {
    /// The values as a list.
    pub fn values(this: &Option<OneOrMany>) -> (r: Vec<String>)
        ensures
            r.deep_view() == values_of(*this),
    {
        match this {
            None => {
                let out: Vec<String> = Vec::new();
                assert(out.deep_view() =~= Seq::<Seq<char>>::empty());
                out
            },
            Some(OneOrMany::One(v)) => {
                let out: Vec<String> = vec![v.clone()];
                assert(out.deep_view() =~= seq![v@]);
                out
            },
            Some(OneOrMany::Many(v)) => crate::registry::copy_strings(v),
        }
    }
}

/// One priority or several: `2` and `[0,1]` are both accepted.
#[derive(Debug, PartialEq, Eq)]
pub enum Priorities {
    One(u8),
    Many(Vec<u8>),
}

/// The priorities, spelled out.
pub open spec fn priorities_in(this: Option<Priorities>) -> Seq<Seq<char>> {
    match this {
        None => Seq::empty(),
        Some(Priorities::One(p)) => seq![text::decimal(p as nat)],
        Some(Priorities::Many(v)) => spelled(v@),
    }
}

impl Priorities {
    /// The priorities as a list of words.
    pub fn values(this: &Option<Priorities>) -> (r: Vec<String>)
        ensures
            r.deep_view() == priorities_in(*this),
    {
        match this {
            None => {
                let out: Vec<String> = Vec::new();
                assert(out.deep_view() =~= Seq::<Seq<char>>::empty());
                out
            },
            Some(Priorities::One(p)) => {
                let word = text::decimal_of(*p as u64);
                let ghost w = word@;
                let out: Vec<String> = vec![word];
                assert(out.deep_view() =~= seq![w]);
                out
            },
            Some(Priorities::Many(v)) => spell(v),
        }
    }
}

// ---- Reading the filter -------------------------------------------------------

/// The filter object that `--filter` or stdin gives.
#[derive(Debug, PartialEq, Eq)]
pub struct QueryFilter {
    /// Any of them.
    pub status: Option<OneOrMany>,
    /// Any of them.
    pub item_type: Option<OneOrMany>,
    /// All of them.
    pub label: Option<OneOrMany>,
    pub assignee: Option<String>,
    /// Any of them.
    pub priority: Option<Priorities>,
    /// A part of the id, the title or a label.
    pub q: Option<String>,
    pub sort: Option<String>,
    pub desc: Option<bool>,
    pub limit: Option<usize>,
    pub offset: Option<usize>,
}

/// The model of a [`QueryFilter`].
pub struct QueryView {
    pub status: Seq<Seq<char>>,
    pub item_type: Seq<Seq<char>>,
    pub label: Seq<Seq<char>>,
    pub assignee: Option<Seq<char>>,
    pub priority: Seq<Seq<char>>,
    pub q: Option<Seq<char>>,
    pub sort: Option<Seq<char>>,
    pub desc: bool,
    pub limit: Option<usize>,
    pub offset: Option<usize>,
}

impl DeepView for QueryFilter {
    type V = QueryView;

    open spec fn deep_view(&self) -> QueryView {
        QueryView {
            status: values_of(self.status),
            item_type: values_of(self.item_type),
            label: values_of(self.label),
            assignee: self.assignee.deep_view(),
            priority: priorities_in(self.priority),
            q: self.q.deep_view(),
            sort: self.sort.deep_view(),
            desc: self.desc == Some(true),
            limit: self.limit,
            offset: self.offset,
        }
    }
}

/// A filter that asks for nothing.
pub open spec fn no_filter() -> QueryView {
    QueryView {
        status: Seq::empty(),
        item_type: Seq::empty(),
        label: Seq::empty(),
        assignee: None,
        priority: Seq::empty(),
        q: None,
        sort: None,
        desc: false,
        limit: None,
        offset: None,
    }
}

/// Is this a field of the filter?
pub open spec fn is_filter_field(key: Seq<char>) -> bool {
    key == "status"@ || key == "type"@ || key == "label"@ || key == "assignee"@ || key
        == "priority"@ || key == "q"@ || key == "sort"@ || key == "desc"@ || key == "limit"@ || key
        == "offset"@
}

fn filter_field(key: &str) -> (r: bool)
    ensures
        r == is_filter_field(key@),
{
    text::same(key, "status") || text::same(key, "type") || text::same(key, "label") || text::same(
        key,
        "assignee",
    ) || text::same(key, "priority") || text::same(key, "q") || text::same(key, "sort")
        || text::same(key, "desc") || text::same(key, "limit") || text::same(key, "offset")
}

/// The first key that is no field of the filter.
pub open spec fn stray_key(e: Seq<(Seq<char>, JsonView)>) -> Option<Seq<char>>
    decreases e.len(),
{
    if e.len() == 0 {
        None
    } else if !is_filter_field(e[0].0) {
        Some(e[0].0)
    } else {
        stray_key(e.drop_first())
    }
}

fn find_stray(map: &Vec<(String, Json)>) -> (r: Option<String>)
    ensures
        r.deep_view() == stray_key(crate::json::entries(map@)),
{
    let ghost e = crate::json::entries(map@);
    let mut i: usize = 0;
    assert(e.skip(0) =~= e);
    while i < map.len()
        invariant
            i <= map.len(),
            e == crate::json::entries(map@),
            stray_key(e) == stray_key(e.skip(i as int)),
        decreases map.len() - i,
    {
        assert(e.skip(i as int)[0] == e[i as int]);
        assert(e.skip(i as int).drop_first() =~= e.skip(i + 1));
        if !filter_field(map[i].0.as_str()) {
            return Some(map[i].0.clone());
        }
        i += 1;
    }
    assert(e.skip(i as int).len() == 0);
    None
}

/// Is a value absent: not there, or null?
pub open spec fn is_absent(v: Option<JsonView>) -> bool {
    v is None || v == Some(JsonView::Null)
}

/// One text or several.
pub open spec fn one_or_many(v: Option<JsonView>) -> Option<Seq<Seq<char>>> {
    if is_absent(v) {
        Some(Seq::empty())
    } else {
        match v->0 {
            JsonView::Text(s) => Some(seq![s]),
            _ => text_list(v->0),
        }
    }
}

/// A priority as a value gives it.
pub open spec fn byte(v: JsonView) -> Option<u8> {
    match v.unsigned() {
        Some(n) => if n <= 255 {
            Some(n as u8)
        } else {
            None
        },
        None => None,
    }
}

/// The numbers of an array that holds nothing else.
pub open spec fn bytes(items: Seq<JsonView>) -> Option<Seq<u8>>
    decreases items.len(),
{
    if items.len() == 0 {
        Some(Seq::empty())
    } else {
        match (bytes(items.drop_last()), byte(items.last())) {
            (Some(rest), Some(b)) => Some(rest.push(b)),
            _ => None,
        }
    }
}

/// One priority or several, spelled out.
pub open spec fn one_or_many_priorities(v: Option<JsonView>) -> Option<Seq<Seq<char>>> {
    if is_absent(v) {
        Some(Seq::empty())
    } else {
        match v->0 {
            JsonView::Array(items) => match bytes(items) {
                Some(b) => Some(spelled(b)),
                None => None,
            },
            one => match byte(one) {
                Some(p) => Some(seq![text::decimal(p as nat)]),
                None => None,
            },
        }
    }
}

/// A text, if there is one.
pub open spec fn optional_text(v: Option<JsonView>) -> Option<Option<Seq<char>>> {
    if is_absent(v) {
        Some(None)
    } else {
        match v->0.text() {
            Some(s) => Some(Some(s)),
            None => None,
        }
    }
}

/// A truth value; absent is false.
pub open spec fn optional_truth(v: Option<JsonView>) -> Option<bool> {
    if is_absent(v) {
        Some(false)
    } else {
        v->0.truth()
    }
}

/// A count, if there is one.
pub open spec fn optional_count(v: Option<JsonView>) -> Option<Option<usize>> {
    if is_absent(v) {
        Some(None)
    } else {
        match v->0.unsigned() {
            Some(n) => if n <= usize::MAX {
                Some(Some(n as usize))
            } else {
                None
            },
            None => None,
        }
    }
}

/// The complaint about a value of the wrong kind.
pub open spec fn bad_value(key: Seq<char>) -> Seq<char> {
    "invalid value for `"@ + key + "`"@
}

/// The filter that an object holds. A key that is none is refused, then the first value of
/// the wrong kind.
pub open spec fn filter_read(v: JsonView) -> Result<QueryView, Seq<char>> {
    match v {
        JsonView::Object(e) => match stray_key(e) {
            Some(key) => Err(
                "unknown field `"@ + key
                    + "`, expected one of `status`, `type`, `label`, `assignee`, `priority`, `q`, `sort`, `desc`, `limit`, `offset`"@,
            ),
            None => if one_or_many(v.member("status"@)) is None {
                Err(bad_value("status"@))
            } else if one_or_many(v.member("type"@)) is None {
                Err(bad_value("type"@))
            } else if one_or_many(v.member("label"@)) is None {
                Err(bad_value("label"@))
            } else if optional_text(v.member("assignee"@)) is None {
                Err(bad_value("assignee"@))
            } else if one_or_many_priorities(v.member("priority"@)) is None {
                Err(bad_value("priority"@))
            } else if optional_text(v.member("q"@)) is None {
                Err(bad_value("q"@))
            } else if optional_text(v.member("sort"@)) is None {
                Err(bad_value("sort"@))
            } else if optional_truth(v.member("desc"@)) is None {
                Err(bad_value("desc"@))
            } else if optional_count(v.member("limit"@)) is None {
                Err(bad_value("limit"@))
            } else if optional_count(v.member("offset"@)) is None {
                Err(bad_value("offset"@))
            } else {
                Ok(
                    QueryView {
                        status: one_or_many(v.member("status"@))->0,
                        item_type: one_or_many(v.member("type"@))->0,
                        label: one_or_many(v.member("label"@))->0,
                        assignee: optional_text(v.member("assignee"@))->0,
                        priority: one_or_many_priorities(v.member("priority"@))->0,
                        q: optional_text(v.member("q"@))->0,
                        sort: optional_text(v.member("sort"@))->0,
                        desc: optional_truth(v.member("desc"@))->0,
                        limit: optional_count(v.member("limit"@))->0,
                        offset: optional_count(v.member("offset"@))->0,
                    },
                )
            },
        },
        _ => Err("expected a JSON object"@),
    }
}

fn read_one_or_many(v: Option<&Json>) -> (r: Option<Option<OneOrMany>>)
    ensures
        match r {
            Some(o) => one_or_many(crate::json::opt_shape(v)) == Some(values_of(o)),
            None => one_or_many(crate::json::opt_shape(v)) is None,
        },
{
    match v {
        None => Some(None),
        Some(j) => match j {
            Json::Null => Some(None),
            Json::Text(s) => Some(Some(OneOrMany::One(s.clone()))),
            _ => match j.as_text_list() {
                Some(list) => Some(Some(OneOrMany::Many(list))),
                None => None,
            },
        },
    }
}

fn read_byte(j: &Json) -> (r: Option<u8>)
    ensures
        r == byte(j.shape()),
{
    match j.as_u64() {
        Some(n) => if n <= 255 {
            Some(n as u8)
        } else {
            None
        },
        None => None,
    }
}

proof fn lemma_bytes_fail(items: Seq<JsonView>, n: int)
    requires
        0 <= n <= items.len(),
        bytes(items.take(n)) is None,
    ensures
        bytes(items) is None,
    decreases items.len() - n,
{
    if n < items.len() {
        assert(items.take(n + 1).drop_last() =~= items.take(n));
        lemma_bytes_fail(items, n + 1);
    } else {
        assert(items.take(n) =~= items);
    }
}

fn read_bytes(items: &Vec<Json>) -> (r: Option<Vec<u8>>)
    ensures
        match r {
            Some(v) => bytes(items.deep_view()) == Some(v@),
            None => bytes(items.deep_view()) is None,
        },
{
    let ghost all = items.deep_view();
    let mut out: Vec<u8> = Vec::new();
    let mut i: usize = 0;
    assert(out@ =~= Seq::<u8>::empty());
    while i < items.len()
        invariant
            i <= items.len(),
            all == items.deep_view(),
            bytes(all.take(i as int)) == Some(out@),
        decreases items.len() - i,
    {
        assert(all.take(i + 1).drop_last() =~= all.take(i as int));
        assert(all[i as int] == items@[i as int].shape());
        match read_byte(&items[i]) {
            Some(b) => out.push(b),
            None => {
                proof {
                    lemma_bytes_fail(all, i + 1);
                }
                return None;
            },
        }
        i += 1;
    }
    assert(all.take(i as int) =~= all);
    Some(out)
}

fn read_priorities(v: Option<&Json>) -> (r: Option<Option<Priorities>>)
    ensures
        match r {
            Some(o) => one_or_many_priorities(crate::json::opt_shape(v)) == Some(priorities_in(o)),
            None => one_or_many_priorities(crate::json::opt_shape(v)) is None,
        },
{
    match v {
        None => Some(None),
        Some(j) => match j {
            Json::Null => Some(None),
            Json::Array(items) => {
                proof {
                    crate::json::lemma_array_shape(*items);
                }
                match read_bytes(items) {
                    Some(b) => Some(Some(Priorities::Many(b))),
                    None => None,
                }
            },
            _ => match read_byte(j) {
                Some(p) => Some(Some(Priorities::One(p))),
                None => None,
            },
        },
    }
}

fn read_text(v: Option<&Json>) -> (r: Option<Option<String>>)
    ensures
        match r {
            Some(o) => optional_text(crate::json::opt_shape(v)) == Some(o.deep_view()),
            None => optional_text(crate::json::opt_shape(v)) is None,
        },
{
    match v {
        None => Some(None),
        Some(j) => match j {
            Json::Null => Some(None),
            Json::Text(s) => Some(Some(s.clone())),
            _ => None,
        },
    }
}

fn read_truth(v: Option<&Json>) -> (r: Option<bool>)
    ensures
        r == optional_truth(crate::json::opt_shape(v)),
{
    match v {
        None => Some(false),
        Some(j) => match j {
            Json::Null => Some(false),
            Json::Bool(b) => Some(*b),
            _ => None,
        },
    }
}

fn read_count(v: Option<&Json>) -> (r: Option<Option<usize>>)
    ensures
        r == optional_count(crate::json::opt_shape(v)),
{
    match v {
        None => Some(None),
        Some(j) => match j {
            Json::Null => Some(None),
            _ => match j.as_u64() {
                Some(n) => if n <= usize::MAX as u64 {
                    Some(Some(n as usize))
                } else {
                    None
                },
                None => None,
            },
        },
    }
}

fn bad(key: &str) -> (r: String)
    ensures
        r@ == bad_value(key@),
{
    text::cat3("invalid value for `", key, "`")
}

impl QueryFilter {
    /// A filter that asks for nothing.
    pub fn none() -> (r: QueryFilter)
        ensures
            r.deep_view() == no_filter(),
    {
        QueryFilter {
            status: None,
            item_type: None,
            label: None,
            assignee: None,
            priority: None,
            q: None,
            sort: None,
            desc: None,
            limit: None,
            offset: None,
        }
    }

    /// Reads a filter object. Nothing unknown is let through.
    pub fn read(value: &Json) -> (r: Result<QueryFilter, String>)
        ensures
            match r {
                Ok(f) => filter_read(value.shape()) == Ok::<QueryView, Seq<char>>(f.deep_view()),
                Err(e) => filter_read(value.shape()) == Err::<QueryView, Seq<char>>(e@),
            },
    {
        match value {
            Json::Object(map) => {
                proof {
                    crate::json::lemma_object_shape(*map);
                }
                if let Some(key) = find_stray(map) {
                    return Err(
                        text::cat3(
                            "unknown field `",
                            key.as_str(),
                            "`, expected one of `status`, `type`, `label`, `assignee`, `priority`, `q`, `sort`, `desc`, `limit`, `offset`",
                        ),
                    );
                }
            },
            _ => {
                return Err("expected a JSON object".to_owned());
            },
        }
        let status = match read_one_or_many(value.get("status")) {
            Some(v) => v,
            None => return Err(bad("status")),
        };
        let item_type = match read_one_or_many(value.get("type")) {
            Some(v) => v,
            None => return Err(bad("type")),
        };
        let label = match read_one_or_many(value.get("label")) {
            Some(v) => v,
            None => return Err(bad("label")),
        };
        let assignee = match read_text(value.get("assignee")) {
            Some(v) => v,
            None => return Err(bad("assignee")),
        };
        let priority = match read_priorities(value.get("priority")) {
            Some(v) => v,
            None => return Err(bad("priority")),
        };
        let q = match read_text(value.get("q")) {
            Some(v) => v,
            None => return Err(bad("q")),
        };
        let sort = match read_text(value.get("sort")) {
            Some(v) => v,
            None => return Err(bad("sort")),
        };
        let desc = match read_truth(value.get("desc")) {
            Some(v) => v,
            None => return Err(bad("desc")),
        };
        let limit = match read_count(value.get("limit")) {
            Some(v) => v,
            None => return Err(bad("limit")),
        };
        let offset = match read_count(value.get("offset")) {
            Some(v) => v,
            None => return Err(bad("offset")),
        };
        Ok(
            QueryFilter {
                status,
                item_type,
                label,
                assignee,
                priority,
                q,
                sort,
                desc: Some(desc),
                limit,
                offset,
            },
        )
    }
}

/// The filter that a text holds; a blank text asks for nothing.
pub open spec fn filter_in(raw: Seq<char>) -> Result<QueryView, ErrorView> {
    if text::trimmed(raw).len() == 0 {
        Ok(no_filter())
    } else {
        match json_parsed(raw) {
            Err(e) => Err(invalid_field("filter"@, "invalid JSON filter: "@ + e)),
            Ok(v) => match filter_read(v) {
                Err(e) => Err(invalid_field("filter"@, "invalid JSON filter: "@ + e)),
                Ok(f) => Ok(f),
            },
        }
    }
}

/// Reads the text of a filter.
pub fn parse_filter(raw: &str) -> (r: Result<QueryFilter, CloveError>)
    ensures
        crate::error::outcome(r) == filter_in(raw@),
{
    if text::trim(raw).is_empty() {
        return Ok(QueryFilter::none());
    }
    let value = match Json::parse(raw) {
        Ok(v) => v,
        Err(e) => {
            return Err(invalid("filter", text::cat2("invalid JSON filter: ", e.as_str())));
        },
    };
    match QueryFilter::read(&value) {
        Ok(f) => Ok(f),
        Err(e) => Err(invalid("filter", text::cat2("invalid JSON filter: ", e.as_str()))),
    }
}

// ---- The plan -----------------------------------------------------------------

/// The first of two values that is there.
pub open spec fn first_count(a: Option<usize>, b: Option<usize>) -> Option<usize> {
    match a {
        Some(_) => a,
        None => b,
    }
}

/// What a query asks for. The flags win over the filter.
pub open spec fn query_planned(args: QueryArgs, f: QueryView) -> Result<PlanView, ErrorView> {
    match filters_of(f.status, f.item_type, f.label, f.assignee, f.priority, f.q) {
        Err(e) => Err(e),
        Ok(filters) => match order_named(
            match args.sort.deep_view() {
                Some(s) => Some(s),
                None => f.sort,
            },
            args.desc || f.desc,
        ) {
            Err(e) => Err(e),
            Ok(order) => Ok(
                PlanView {
                    filters,
                    order,
                    fields: fields_asked(args.fields.deep_view()),
                    window: window_asked(
                        first_count(args.offset, f.offset),
                        first_count(args.limit, f.limit),
                    ),
                    projection: projection_for(fields_asked(args.fields.deep_view()), false),
                    compact: args.compact,
                },
            ),
        },
    }
}

fn first_of(a: Option<usize>, b: Option<usize>) -> (r: Option<usize>)
    ensures
        r == first_count(a, b),
{
    match a {
        Some(n) => Some(n),
        None => b,
    }
}

/// Puts the flags and the filter together.
pub fn plan(args: &QueryArgs, filter: &QueryFilter) -> (r: Result<ListPlan, CloveError>)
    ensures
        crate::error::outcome(r) == query_planned(*args, filter.deep_view()),
{
    let status = OneOrMany::values(&filter.status);
    let item_type = OneOrMany::values(&filter.item_type);
    let label = OneOrMany::values(&filter.label);
    let priority = Priorities::values(&filter.priority);
    let filters = match Filters::parse_multi(
        &status,
        &item_type,
        &label,
        borrowed(&filter.assignee),
        &priority,
        borrowed(&filter.q),
    ) {
        Ok(f) => f,
        Err(e) => return Err(e),
    };
    let sort = match &args.sort {
        Some(s) => Some(s.as_str()),
        None => borrowed(&filter.sort),
    };
    let desc = args.desc || match filter.desc {
        Some(d) => d,
        None => false,
    };
    let order: Order = match crate::cli::order_of(sort, desc) {
        Ok(o) => o,
        Err(e) => return Err(e),
    };
    let fields = asked_fields(&args.fields);
    let projection = if lean_can_serve(fields.as_ref()) {
        Projection::Lean
    } else {
        Projection::Files
    };
    Ok(
        ListPlan {
            filters,
            order,
            fields,
            window: window(first_of(args.offset, filter.offset), first_of(args.limit, filter.limit)),
            projection,
            compact: args.compact,
        },
    )
}

/// Reads the filter and puts it together with the flags.
pub fn run(args: &QueryArgs, raw: &str) -> (r: Result<ListPlan, CloveError>)
    ensures
        crate::error::outcome(r) == (match filter_in(raw@) {
            Err(e) => Err(e),
            Ok(f) => query_planned(*args, f),
        }),
{
    match parse_filter(raw) {
        Err(e) => Err(e),
        Ok(f) => plan(args, &f),
    }
}

/// One value and a list of that one value mean the same filter.
pub proof fn law_one_value_is_a_list_of_one(s: Seq<char>)
    ensures
        one_or_many(Some(JsonView::Text(s))) == one_or_many(
            Some(JsonView::Array(seq![JsonView::Text(s)])),
        ),
{
    let list = JsonView::Array(seq![JsonView::Text(s)]);
    assert(text_list(list)->0 =~= seq![s]);
}

// ---- What a filter document asks for --------------------------------------------

/// The first key that is no field of a filter is found, if there is one.
pub proof fn law_stray_keys_are_found(e: Seq<(Seq<char>, JsonView)>)
    ensures
        match stray_key(e) {
            Some(k) => !is_filter_field(k) && exists|i: int|
                0 <= i < e.len() && (#[trigger] e[i]).0 == k,
            None => forall|i: int| 0 <= i < e.len() ==> is_filter_field((#[trigger] e[i]).0),
        },
    decreases e.len(),
{
    if e.len() > 0 && is_filter_field(e[0].0) {
        let rest = e.drop_first();
        law_stray_keys_are_found(rest);
        if let Some(k) = stray_key(rest) {
            let i = choose|i: int| 0 <= i < rest.len() && (#[trigger] rest[i]).0 == k;
            assert(e[i + 1].0 == k);
        } else {
            assert forall|i: int| 0 <= i < e.len() implies is_filter_field((#[trigger] e[i]).0) by {
                if i > 0 {
                    assert(e[i] == rest[i - 1]);
                }
            }
        }
    } else if e.len() > 0 {
        assert(e[0].0 == stray_key(e)->0);
    }
}

/// A filter document asks for what stands under its keys: a text is a list of one, a list is
/// taken as it is, what is missing or null asks for nothing, and a key that is unknown is
/// refused.
pub proof fn law_a_filter_document_asks_for_what_it_says(e: Seq<(Seq<char>, JsonView)>)
    ensures
        ({
            let v = JsonView::Object(e);
            &&& filter_read(v) matches Ok(f) ==> {
                &&& v.member("status"@) matches Some(JsonView::Text(s)) ==> f.status == seq![s]
                &&& v.member("type"@) matches Some(JsonView::Text(s)) ==> f.item_type == seq![s]
                &&& v.member("label"@) matches Some(JsonView::Text(s)) ==> f.label == seq![s]
                &&& v.member("status"@) matches Some(JsonView::Array(a)) ==> text_list(
                    JsonView::Array(a),
                ) == Some(f.status)
                &&& v.member("type"@) matches Some(JsonView::Array(a)) ==> text_list(
                    JsonView::Array(a),
                ) == Some(f.item_type)
                &&& v.member("label"@) matches Some(JsonView::Array(a)) ==> text_list(
                    JsonView::Array(a),
                ) == Some(f.label)
                &&& v.member("assignee"@) matches Some(JsonView::Text(s)) ==> f.assignee == Some(s)
                &&& v.member("q"@) matches Some(JsonView::Text(s)) ==> f.q == Some(s)
                &&& v.member("sort"@) matches Some(JsonView::Text(s)) ==> f.sort == Some(s)
                &&& v.member("desc"@) matches Some(JsonView::Bool(b)) ==> f.desc == b
                &&& v.member("status"@) is None ==> f.status.len() == 0
                &&& v.member("type"@) is None ==> f.item_type.len() == 0
                &&& v.member("label"@) is None ==> f.label.len() == 0
                &&& v.member("priority"@) is None ==> f.priority.len() == 0
                &&& v.member("assignee"@) is None ==> f.assignee is None
                &&& v.member("q"@) is None ==> f.q is None
                &&& v.member("sort"@) is None ==> f.sort is None
                &&& v.member("desc"@) is None ==> !f.desc
                &&& v.member("limit"@) is None ==> f.limit is None
                &&& v.member("offset"@) is None ==> f.offset is None
                &&& v.member("limit"@) matches Some(n) ==> (n.unsigned() matches Some(m)
                    ==> f.limit == Some(m as usize))
                &&& v.member("offset"@) matches Some(n) ==> (n.unsigned() matches Some(m)
                    ==> f.offset == Some(m as usize))
                &&& v.member("priority"@) matches Some(n) ==> (n.unsigned() matches Some(m)
                    ==> f.priority == seq![text::decimal(m as nat)])
            }
            &&& filter_read(v) is Ok ==> forall|i: int|
                0 <= i < e.len() ==> is_filter_field((#[trigger] e[i]).0)
        }),
        forall|v: JsonView| v !is Object ==> (#[trigger] filter_read(v)) is Err,
{
    law_stray_keys_are_found(e);
}

/// Is a key a field of a filter?
pub proof fn law_the_fields_of_a_filter()
    ensures
        is_filter_field("status"@),
        is_filter_field("type"@),
        is_filter_field("label"@),
        is_filter_field("assignee"@),
        is_filter_field("priority"@),
        is_filter_field("q"@),
        is_filter_field("sort"@),
        is_filter_field("desc"@),
        is_filter_field("limit"@),
        is_filter_field("offset"@),
        forall|k: Seq<char>| #[trigger] is_filter_field(k) ==> k.len() <= 8,
{
    reveal_strlit("status");
    reveal_strlit("type");
    reveal_strlit("label");
    reveal_strlit("assignee");
    reveal_strlit("priority");
    reveal_strlit("q");
    reveal_strlit("sort");
    reveal_strlit("desc");
    reveal_strlit("limit");
    reveal_strlit("offset");
}

/// A number that a list of priorities holds is asked for, and no other: as many as the list
/// has, each in its place.
pub proof fn law_priorities_are_taken_as_they_are(items: Seq<JsonView>)
    ensures
        bytes(items) matches Some(b) ==> b.len() == items.len() && forall|i: int|
            0 <= i < items.len() ==> (#[trigger] items[i]).unsigned() == Some(b[i] as u64),
        (forall|i: int|
            0 <= i < items.len() ==> ((#[trigger] items[i]).unsigned() matches Some(n) && n <= 255))
            ==> bytes(items) is Some,
    decreases items.len(),
{
    if items.len() > 0 {
        let init = items.drop_last();
        law_priorities_are_taken_as_they_are(init);
        if let Some(b) = bytes(items) {
            let rest = bytes(init)->0;
            assert forall|i: int| 0 <= i < items.len() implies (#[trigger] items[i]).unsigned()
                == Some(b[i] as u64) by {
                if i < init.len() {
                    assert(init[i] == items[i]);
                    assert(b[i] == rest[i]);
                }
            }
        }
        if forall|i: int|
            0 <= i < items.len() ==> ((#[trigger] items[i]).unsigned() matches Some(n) && n
                <= 255) {
            assert forall|i: int| 0 <= i < init.len() implies ((#[trigger] init[i]).unsigned()
                matches Some(n) && n <= 255) by {
                assert(init[i] == items[i]);
            }
            assert(items[items.len() - 1].unsigned() is Some);
        }
    }
}

/// What the command line asks for wins over the document: the sort field, the limit and the
/// offset; the order is reversed if either asks for it.
pub proof fn law_the_command_line_wins(args: QueryArgs, f: QueryView)
    ensures
        query_planned(args, f) matches Ok(p) ==> {
            &&& p.window.offset == (match args.offset {
                Some(n) => n,
                None => match f.offset {
                    Some(n) => n,
                    None => 0,
                },
            })
            &&& args.limit matches Some(n) ==> (n > 0 ==> p.window.limit == args.limit)
            &&& args.limit is None && f.limit is Some && f.limit->0 > 0 ==> p.window.limit
                == f.limit
            &&& p.order.desc == (args.desc || f.desc)
            &&& args.sort matches Some(s) ==> p.order.field.word() == s@
            &&& args.sort is None && f.sort is Some ==> p.order.field.word() == f.sort->0
            &&& args.sort is None && f.sort is None ==> p.order.field == SortField::Rank
            &&& p.compact == args.compact
            &&& p.filters.assignee == f.assignee && p.filters.q == f.q
            &&& p.filters.status.len() == f.status.len()
            &&& p.filters.item_type.len() == f.item_type.len()
            &&& p.filters.label.len() == f.label.len()
            &&& p.filters.priority.len() == f.priority.len()
        },
{
    crate::view::law_a_filter_set_is_what_its_words_say(
        f.status,
        f.item_type,
        f.label,
        f.assignee,
        f.priority,
        f.q,
    );
    if let Some(s) = args.sort {
        crate::cli::law_sort_fields_read_back(s@);
    }
    if let Some(s) = f.sort {
        crate::cli::law_sort_fields_read_back(s);
    }
}

/// A blank filter asks for nothing; any other is read as the document that it holds, and
/// refused where it holds none.
pub proof fn law_a_filter_text_is_read_as_its_document(raw: Seq<char>, v: JsonView)
    ensures
        text::trimmed(raw).len() == 0 ==> filter_in(raw) == Ok::<QueryView, ErrorView>(no_filter()),
        text::trimmed(raw).len() > 0 && json_parsed(raw) is Err ==> filter_in(raw) is Err,
        text::trimmed(raw).len() > 0 && json_parsed(raw) == Ok::<JsonView, Seq<char>>(v) ==> (
        filter_read(v) matches Ok(f) ==> filter_in(raw) == Ok::<QueryView, ErrorView>(f)),
        text::trimmed(raw).len() > 0 && json_parsed(raw) == Ok::<JsonView, Seq<char>>(v)
            && filter_read(v) is Err ==> filter_in(raw) is Err,
        no_filter().status.len() == 0 && no_filter().item_type.len() == 0
            && no_filter().label.len() == 0 && no_filter().priority.len() == 0,
        no_filter().assignee is None && no_filter().q is None && no_filter().sort is None
            && !no_filter().desc && no_filter().limit is None && no_filter().offset is None,
{
}

/// One value or several are those that are given, in order.
pub proof fn law_values_are_those_given(v: String, many: Vec<String>, p: u8)
    ensures
        values_of(None).len() == 0,
        values_of(Some(OneOrMany::One(v))) == seq![v@],
        values_of(Some(OneOrMany::Many(many))) == many.deep_view(),
        priorities_in(None).len() == 0,
        priorities_in(Some(Priorities::One(p))) == seq![text::decimal(p as nat)],
{
}

} // verus!
