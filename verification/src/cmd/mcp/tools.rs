//! What the tools do: reading their arguments, and answering.

use vstd::prelude::*;

use crate::cli::{order_named, order_of, Order};
use crate::cmd::index_read::Source;
use crate::cmd::listing::{
    filters_json, filters_object, objects_view, shape_all, shape_object, shaped, shaped_values,
    ListObject,
};
use crate::cmd::show::{full_item, full_object, Shown, ShownView};
use crate::cmd::stats::StatsOptions;
use crate::error::{CloveError, ErrorView};
use crate::item_json::copy_entries;
use crate::json::{
    entries, insert, law_distinct_pairs_are_members, law_put_then_lookup, lookup, num, number, obj,
    object, put, string, strings, texts, Json, JsonView,
};
use crate::output::pairs;
use crate::ranking::{arrange, arranged, as_places, cut, found, kept_places, search_order_named, search_order_of, search_rows, select, SearchOrder};
use crate::registry::install::borrowed;
use crate::text;
use crate::view::{
    filters_of, has_text, law_words_are_read_as_what_they_name, limit_in_force, page_of,
    parse_priority, parse_status, parse_type, priority_of, status_of, type_of, Filters,
    FiltersView, ItemStatus, ItemType, Page, Row, RowView,
};

verus! {

/// Why a tool could not answer.
#[derive(Debug, PartialEq, Eq)]
pub enum ToolError {
    /// No tool has that name.
    Unknown,
    /// The arguments are missing or of the wrong kind.
    Args(String),
    /// The operation was refused.
    Clove(CloveError),
}

/// The model of a [`ToolError`].
pub enum ToolErrorView {
    Unknown,
    Args(Seq<char>),
    Clove(ErrorView),
}

impl DeepView for ToolError {
    type V = ToolErrorView;

    open spec fn deep_view(&self) -> ToolErrorView {
        match self {
            ToolError::Unknown => ToolErrorView::Unknown,
            ToolError::Args(s) => ToolErrorView::Args(s@),
            ToolError::Clove(e) => ToolErrorView::Clove(e.deep_view()),
        }
    }
}

/// The view of what a tool answers.
pub open spec fn answered(r: Result<Json, ToolError>) -> Result<JsonView, ToolErrorView> {
    match r {
        Ok(j) => Ok(j.shape()),
        Err(e) => Err(e.deep_view()),
    }
}

/// A tool.
#[derive(Debug, Clone, Copy, PartialEq, Eq, Structural)]
pub enum Tool {
    Ready,
    Blocked,
    List,
    Show,
    Search,
    Comments,
    DepTree,
    Stats,
    New,
    Status,
    Edit,
    Comment,
    DepAdd,
    DepRemove,
    SetParent,
}

impl Tool {
    /// The name of a tool.
    pub open spec fn name(self) -> Seq<char> {
        match self {
            Tool::Ready => "clove_ready"@,
            Tool::Blocked => "clove_blocked"@,
            Tool::List => "clove_list"@,
            Tool::Show => "clove_show"@,
            Tool::Search => "clove_search"@,
            Tool::Comments => "clove_comments"@,
            Tool::DepTree => "clove_dep_tree"@,
            Tool::Stats => "clove_stats"@,
            Tool::New => "clove_new"@,
            Tool::Status => "clove_status"@,
            Tool::Edit => "clove_edit"@,
            Tool::Comment => "clove_comment"@,
            Tool::DepAdd => "clove_dep_add"@,
            Tool::DepRemove => "clove_dep_remove"@,
            Tool::SetParent => "clove_set_parent"@,
        }
    }
}

/// Finds the tool that is called.
pub fn call_tool(name: &str) -> (r: Result<Tool, ToolError>)
    ensures
        match r {
            Ok(t) => t.name() == name@,
            Err(e) => e == ToolError::Unknown && forall|t: Tool| #[trigger] t.name() != name@,
        },
{
    if text::same(name, "clove_ready") {
        Ok(Tool::Ready)
    } else if text::same(name, "clove_blocked") {
        Ok(Tool::Blocked)
    } else if text::same(name, "clove_list") {
        Ok(Tool::List)
    } else if text::same(name, "clove_show") {
        Ok(Tool::Show)
    } else if text::same(name, "clove_search") {
        Ok(Tool::Search)
    } else if text::same(name, "clove_comments") {
        Ok(Tool::Comments)
    } else if text::same(name, "clove_dep_tree") {
        Ok(Tool::DepTree)
    } else if text::same(name, "clove_stats") {
        Ok(Tool::Stats)
    } else if text::same(name, "clove_new") {
        Ok(Tool::New)
    } else if text::same(name, "clove_status") {
        Ok(Tool::Status)
    } else if text::same(name, "clove_edit") {
        Ok(Tool::Edit)
    } else if text::same(name, "clove_comment") {
        Ok(Tool::Comment)
    } else if text::same(name, "clove_dep_add") {
        Ok(Tool::DepAdd)
    } else if text::same(name, "clove_dep_remove") {
        Ok(Tool::DepRemove)
    } else if text::same(name, "clove_set_parent") {
        Ok(Tool::SetParent)
    } else {
        Err(ToolError::Unknown)
    }
}

// ---- Arguments ----------------------------------------------------------------

/// A text argument.
pub open spec fn text_arg(args: JsonView, key: Seq<char>) -> Option<Seq<char>> {
    match args.member(key) {
        Some(v) => v.text(),
        None => None,
    }
}

pub fn arg_str<'a>(args: &'a Json, key: &str) -> (r: Option<&'a str>)
    ensures
        text::opt_view(r) == text_arg(args.shape(), key@),
{
    match args.get(key) {
        Some(v) => v.as_str(),
        None => None,
    }
}

/// A text argument that must be there.
pub open spec fn required_arg(args: JsonView, key: Seq<char>) -> Result<Seq<char>, ToolErrorView> {
    match text_arg(args, key) {
        Some(s) => Ok(s),
        None => Err(ToolErrorView::Args("missing required argument `"@ + key + "`"@)),
    }
}

pub fn req_str<'a>(args: &'a Json, key: &str) -> (r: Result<&'a str, ToolError>)
    ensures
        match r {
            Ok(s) => required_arg(args.shape(), key@) == Ok::<Seq<char>, ToolErrorView>(s@),
            Err(e) => required_arg(args.shape(), key@) == Err::<Seq<char>, ToolErrorView>(
                e.deep_view(),
            ),
        },
{
    match arg_str(args, key) {
        Some(s) => Ok(s),
        None => Err(ToolError::Args(text::cat3("missing required argument `", key, "`"))),
    }
}

/// A number argument.
pub open spec fn number_arg(args: JsonView, key: Seq<char>) -> Option<u64> {
    match args.member(key) {
        Some(v) => v.unsigned(),
        None => None,
    }
}

pub fn arg_u64(args: &Json, key: &str) -> (r: Option<u64>)
    ensures
        r == number_arg(args.shape(), key@),
{
    match args.get(key) {
        Some(v) => v.as_u64(),
        None => None,
    }
}

/// A number that counts something: one that is too large counts as the largest there is.
pub open spec fn count_arg(args: JsonView, key: Seq<char>) -> Option<usize> {
    match number_arg(args, key) {
        Some(n) => Some(if n <= usize::MAX {
            n as usize
        } else {
            usize::MAX
        }),
        None => None,
    }
}

pub fn arg_usize(args: &Json, key: &str) -> (r: Option<usize>)
    ensures
        r == count_arg(args.shape(), key@),
{
    match arg_u64(args, key) {
        Some(n) => Some(
            if n <= usize::MAX as u64 {
                n as usize
            } else {
                usize::MAX
            },
        ),
        None => None,
    }
}

/// A truth argument.
pub open spec fn truth_arg(args: JsonView, key: Seq<char>, default: bool) -> bool {
    match args.member(key) {
        Some(v) => match v.truth() {
            Some(b) => b,
            None => default,
        },
        None => default,
    }
}

pub fn arg_bool(args: &Json, key: &str, default: bool) -> (r: bool)
    ensures
        r == truth_arg(args.shape(), key@, default),
{
    match args.get(key) {
        Some(v) => match v.as_bool() {
            Some(b) => b,
            None => default,
        },
        None => default,
    }
}

/// The texts among some values.
pub open spec fn texts_among(items: Seq<JsonView>) -> Seq<Seq<char>>
    decreases items.len(),
{
    if items.len() == 0 {
        Seq::empty()
    } else {
        let rest = texts_among(items.drop_last());
        match items.last().text() {
            Some(s) => rest.push(s),
            None => rest,
        }
    }
}

/// The texts of a list argument; what is no text is passed over.
pub open spec fn list_arg(args: JsonView, key: Seq<char>) -> Seq<Seq<char>> {
    match args.member(key) {
        Some(v) => match v.elements() {
            Some(items) => texts_among(items),
            None => Seq::empty(),
        },
        None => Seq::empty(),
    }
}

fn collect_texts(items: &Vec<Json>) -> (r: Vec<String>)
    ensures
        r.deep_view() == texts_among(items.deep_view()),
{
    let ghost all = items.deep_view();
    let mut out: Vec<String> = Vec::new();
    let mut i: usize = 0;
    assert(out.deep_view() =~= texts_among(all.take(0)));
    while i < items.len()
        invariant
            i <= items.len(),
            all == items.deep_view(),
            out.deep_view() == texts_among(all.take(i as int)),
        decreases items.len() - i,
    {
        let ghost prev = out.deep_view();
        assert(all.take(i + 1).drop_last() =~= all.take(i as int));
        assert(all[i as int] == items@[i as int].shape());
        if let Some(s) = items[i].as_str() {
            out.push(s.to_owned());
            assert(out.deep_view() =~= prev.push(s@));
        }
        i += 1;
    }
    assert(all.take(i as int) =~= all);
    out
}

fn no_texts() -> (r: Vec<String>)
    ensures
        r.deep_view() == Seq::<Seq<char>>::empty(),
{
    let v: Vec<String> = Vec::new();
    assert(v.deep_view() =~= Seq::<Seq<char>>::empty());
    v
}

pub fn str_array(args: &Json, key: &str) -> (r: Vec<String>)
    ensures
        r.deep_view() == list_arg(args.shape(), key@),
{
    match args.get(key) {
        Some(v) => match v.as_array() {
            Some(items) => collect_texts(items),
            None => no_texts(),
        },
        None => no_texts(),
    }
}

/// One text or a list of texts.
pub open spec fn many_arg(args: JsonView, key: Seq<char>) -> Seq<Seq<char>> {
    match text_arg(args, key) {
        Some(s) => seq![s],
        None => list_arg(args, key),
    }
}

fn arg_many(args: &Json, key: &str) -> (r: Vec<String>)
    ensures
        r.deep_view() == many_arg(args.shape(), key@),
{
    match arg_str(args, key) {
        Some(s) => {
            let v: Vec<String> = vec![s.to_owned()];
            assert(v.deep_view() =~= seq![s@]);
            v
        },
        None => str_array(args, key),
    }
}

/// The numbers among some values, spelled out.
pub open spec fn numbers_among(items: Seq<JsonView>) -> Seq<Seq<char>>
    decreases items.len(),
{
    if items.len() == 0 {
        Seq::empty()
    } else {
        let rest = numbers_among(items.drop_last());
        match items.last().unsigned() {
            Some(n) => rest.push(text::decimal(n as nat)),
            None => rest,
        }
    }
}

/// One number or a list of numbers, spelled out.
pub open spec fn many_numbers_arg(args: JsonView, key: Seq<char>) -> Seq<Seq<char>> {
    match args.member(key) {
        None => Seq::empty(),
        Some(v) => match v.unsigned() {
            Some(n) => seq![text::decimal(n as nat)],
            None => match v.elements() {
                Some(items) => numbers_among(items),
                None => Seq::empty(),
            },
        },
    }
}

fn collect_numbers(items: &Vec<Json>) -> (r: Vec<String>)
    ensures
        r.deep_view() == numbers_among(items.deep_view()),
{
    let ghost all = items.deep_view();
    let mut out: Vec<String> = Vec::new();
    let mut i: usize = 0;
    assert(out.deep_view() =~= numbers_among(all.take(0)));
    while i < items.len()
        invariant
            i <= items.len(),
            all == items.deep_view(),
            out.deep_view() == numbers_among(all.take(i as int)),
        decreases items.len() - i,
    {
        let ghost prev = out.deep_view();
        assert(all.take(i + 1).drop_last() =~= all.take(i as int));
        assert(all[i as int] == items@[i as int].shape());
        if let Some(n) = items[i].as_u64() {
            out.push(text::decimal_of(n));
            assert(out.deep_view() =~= prev.push(text::decimal(n as nat)));
        }
        i += 1;
    }
    assert(all.take(i as int) =~= all);
    out
}

fn arg_many_numbers(args: &Json, key: &str) -> (r: Vec<String>)
    ensures
        r.deep_view() == many_numbers_arg(args.shape(), key@),
{
    match args.get(key) {
        None => no_texts(),
        Some(v) => match v.as_u64() {
            Some(n) => {
                let word = text::decimal_of(n);
                let ghost w = word@;
                let out: Vec<String> = vec![word];
                assert(out.deep_view() =~= seq![w]);
                out
            },
            None => match v.as_array() {
                Some(items) => collect_numbers(items),
                None => no_texts(),
            },
        },
    }
}

/// The filters that the arguments ask for.
pub open spec fn filters_asked(args: JsonView) -> Result<FiltersView, ErrorView> {
    filters_of(
        many_arg(args, "status"@),
        many_arg(args, "type"@),
        many_arg(args, "label"@),
        text_arg(args, "assignee"@),
        many_numbers_arg(args, "priority"@),
        text_arg(args, "q"@),
    )
}

/// Reads the filters.
pub fn parse_filters(args: &Json) -> (r: Result<Filters, CloveError>)
    ensures
        crate::error::outcome(r) == filters_asked(args.shape()),
{
    let status = arg_many(args, "status");
    let item_type = arg_many(args, "type");
    let label = arg_many(args, "label");
    let priority = arg_many_numbers(args, "priority");
    Filters::parse_multi(
        &status,
        &item_type,
        &label,
        arg_str(args, "assignee"),
        &priority,
        arg_str(args, "q"),
    )
}

/// The default limit of the tools that read lists.
pub const TOOL_LIMIT: usize = 50;

/// The page that the arguments ask for: 50 entries without a limit, all for 0.
pub open spec fn window_arg(args: JsonView) -> Page {
    Page {
        offset: match count_arg(args, "offset"@) {
            Some(n) => n,
            None => 0,
        },
        limit: limit_in_force(count_arg(args, "limit"@), TOOL_LIMIT),
    }
}

/// Reads the page that is asked for.
pub fn arg_window(args: &Json) -> (r: Page)
    ensures
        r == window_arg(args.shape()),
{
    let offset = match arg_usize(args, "offset") {
        Some(n) => n,
        None => 0,
    };
    Page::new(offset, arg_usize(args, "limit"), TOOL_LIMIT)
}

/// The fields that the arguments ask for.
pub open spec fn fields_arg(args: JsonView) -> Option<Seq<Seq<char>>> {
    match args.member("fields"@) {
        Some(v) => match v.elements() {
            Some(items) => Some(texts_among(items)),
            None => None,
        },
        None => None,
    }
}

fn arg_fields(args: &Json) -> (r: Option<Vec<String>>)
    ensures
        r.deep_view() == fields_arg(args.shape()),
{
    match args.get("fields") {
        Some(v) => match v.as_array() {
            Some(items) => Some(collect_texts(items)),
            None => None,
        },
        None => None,
    }
}

// ---- Pages --------------------------------------------------------------------

/// The items of a store.
#[derive(Debug, PartialEq, Eq)]
pub struct Store {
    pub rows: Vec<Row>,
    /// The serialized frontmatter of each item.
    pub objects: Vec<ListObject>,
    pub bodies: Vec<String>,
}

impl Store {
    /// Is there an object and a body for each row?
    pub open spec fn wf(&self) -> bool {
        self.rows.len() == self.objects.len() && self.rows.len() == self.bodies.len()
    }
}

/// What a page says of itself.
pub struct PageInfo {
    pub total: int,
    pub window: Page,
    pub sort: Seq<char>,
    pub dir: Seq<char>,
    pub filters: Option<FiltersView>,
}

/// The page that a tool answers with.
pub open spec fn page_object(info: PageInfo, items: Seq<JsonView>) -> JsonView {
    let head = seq![
        ("total"@, num(info.total)),
        ("returned"@, num(items.len() as int)),
        ("offset"@, num(info.window.offset as int)),
        ("limit"@, num(match info.window.limit {
            None => 0,
            Some(n) => n as int,
        })),
        ("sort"@, JsonView::Text(info.sort)),
        ("dir"@, JsonView::Text(info.dir)),
        ("source"@, JsonView::Text(Source::Files.word())),
        ("items"@, JsonView::Array(items)),
    ];
    match info.filters {
        Some(f) => obj(head.push(("filters"@, filters_object(f)))),
        None => obj(head),
    }
}

fn page_json(
    total: usize,
    window: Page,
    sort: &str,
    dir: &str,
    filters: Option<&Filters>,
    items: Vec<Json>,
) -> (r: Json)
    ensures
        r.shape() == page_object(
            PageInfo {
                total: total as int,
                window,
                sort: sort@,
                dir: dir@,
                filters: match filters {
                    Some(f) => Some(f.deep_view()),
                    None => None,
                },
            },
            items.deep_view(),
        ),
{
    let ghost all = items.deep_view();
    let n = items.len();
    assert(all.len() == n);
    let limit = window.reported_limit();
    proof {
        crate::json::lemma_array_shape(items);
    }
    let mut v: Vec<(String, Json)> = vec![
        ("total".to_owned(), number(total as u64)),
        ("returned".to_owned(), number(n as u64)),
        ("offset".to_owned(), number(window.offset as u64)),
        ("limit".to_owned(), number(limit as u64)),
        ("sort".to_owned(), string(sort)),
        ("dir".to_owned(), string(dir)),
        ("source".to_owned(), string(Source::Files.as_str())),
        ("items".to_owned(), Json::Array(items)),
    ];
    let ghost head = seq![
        ("total"@, num(total as int)),
        ("returned"@, num(all.len() as int)),
        ("offset"@, num(window.offset as int)),
        ("limit"@, num(match window.limit {
            None => 0,
            Some(n) => n as int,
        })),
        ("sort"@, JsonView::Text(sort@)),
        ("dir"@, JsonView::Text(dir@)),
        ("source"@, JsonView::Text(Source::Files.word())),
        ("items"@, JsonView::Array(all)),
    ];
    assert(pairs(v@) =~= head);
    if let Some(f) = filters {
        v.push(("filters".to_owned(), filters_json(f)));
        assert(pairs(v@) =~= head.push(("filters"@, filters_object(f.deep_view()))));
    }
    object(v)
}

/// The objects at some places.
pub open spec fn objects_at(
    all: Seq<Seq<(Seq<char>, JsonView)>>,
    places: Seq<int>,
) -> Seq<Seq<(Seq<char>, JsonView)>> {
    Seq::new(places.len(), |i: int| all[places[i]])
}

fn pick(objects: &Vec<ListObject>, places: &Vec<usize>) -> (r: Vec<ListObject>)
    requires
        forall|i: int| 0 <= i < places.len() ==> #[trigger] places@[i] < objects.len(),
    ensures
        objects_view(r@) == objects_at(objects_view(objects@), as_places(places@)),
{
    let ghost all = objects_view(objects@);
    let ghost at = as_places(places@);
    let mut out: Vec<ListObject> = Vec::new();
    let mut i: usize = 0;
    while i < places.len()
        invariant
            i <= places.len(),
            all == objects_view(objects@),
            at == as_places(places@),
            forall|j: int| 0 <= j < places.len() ==> #[trigger] places@[j] < objects.len(),
            out.len() == i,
            forall|j: int| 0 <= j < i ==> entries(#[trigger] out@[j]@) == all[at[j]],
        decreases places.len() - i,
    {
        let n = places[i];
        assert(at[i as int] == n);
        assert(all[n as int] == entries(objects@[n as int]@));
        out.push(copy_entries(&objects[n]));
        i += 1;
    }
    assert(objects_view(out@) =~= objects_at(all, at));
    out
}

proof fn lemma_cut_within(places: Seq<usize>, page: Seq<usize>, n: int)
    requires
        forall|i: int| 0 <= i < places.len() ==> #[trigger] places[i] < n,
        forall|i: int| 0 <= i < page.len() ==> places.contains(#[trigger] page[i]),
    ensures
        forall|i: int| 0 <= i < page.len() ==> #[trigger] page[i] < n,
{
    assert forall|i: int| 0 <= i < page.len() implies #[trigger] page[i] < n by {
        let k = choose|k: int| 0 <= k < places.len() && places[k] == page[i];
        assert(places[k] < n);
    }
}

// ---- Reads --------------------------------------------------------------------

/// What a list tool answers: the page of the chosen items, in order.
pub open spec fn list_answer(
    args: JsonView,
    rows: Seq<RowView>,
    objects: Seq<Seq<(Seq<char>, JsonView)>>,
    filters: FiltersView,
    chosen: Seq<int>,
) -> Result<JsonView, ToolErrorView> {
    match order_named(text_arg(args, "sort"@), truth_arg(args, "desc"@, false)) {
        Err(e) => Err(ToolErrorView::Clove(e)),
        Ok(order) => {
            let places = page_of(arranged(order, rows, chosen), window_arg(args));
            Ok(
                page_object(
                    PageInfo {
                        total: chosen.len() as int,
                        window: window_arg(args),
                        sort: order.field.word(),
                        dir: order.dir_word(),
                        filters: Some(filters),
                    },
                    shaped_values(
                        objects_at(objects, places),
                        fields_arg(args),
                        truth_arg(args, "compact"@, true),
                    ),
                ),
            )
        },
    }
}

fn answer_list(
    args: &Json,
    rows: &Vec<Row>,
    objects: &Vec<ListObject>,
    filters: &Filters,
    chosen: &Vec<usize>,
) -> (r: Result<Json, ToolError>)
    requires
        rows.len() == objects.len(),
        forall|i: int| 0 <= i < chosen.len() ==> #[trigger] chosen@[i] < rows.len(),
    ensures
        answered(r) == list_answer(
            args.shape(),
            rows.deep_view(),
            objects_view(objects@),
            filters.deep_view(),
            as_places(chosen@),
        ),
{
    let order: Order = match order_of(arg_str(args, "sort"), arg_bool(args, "desc", false)) {
        Ok(o) => o,
        Err(e) => return Err(ToolError::Clove(e)),
    };
    let window = arg_window(args);
    let sorted = arrange(order, rows, chosen);
    let page = cut(&sorted, window);
    proof {
        lemma_cut_within(sorted@, page@, rows.len() as int);
    }
    let picked = pick(objects, &page);
    let fields = arg_fields(args);
    let items = shape_all(&picked, fields.as_ref(), arg_bool(args, "compact", true));
    Ok(
        page_json(
            chosen.len(),
            window,
            order.field.as_str(),
            order.dir_str(),
            Some(filters),
            items,
        ),
    )
}

/// What `clove_list` answers.
pub open spec fn list_told(
    args: JsonView,
    rows: Seq<RowView>,
    objects: Seq<Seq<(Seq<char>, JsonView)>>,
) -> Result<JsonView, ToolErrorView> {
    match filters_asked(args) {
        Err(e) => Err(ToolErrorView::Clove(e)),
        Ok(f) => list_answer(args, rows, objects, f, kept_places(f, rows, rows.len() as int)),
    }
}

/// `clove_list`: the items that the filters keep.
pub fn list(store: &Store, args: &Json) -> (r: Result<Json, ToolError>)
    requires
        store.wf(),
    ensures
        answered(r) == list_told(args.shape(), store.rows.deep_view(), objects_view(store.objects@)),
{
    let filters = match parse_filters(args) {
        Ok(f) => f,
        Err(e) => return Err(ToolError::Clove(e)),
    };
    let chosen = select(&filters, &store.rows);
    answer_list(args, &store.rows, &store.objects, &filters, &chosen)
}

/// The places whose item is one of `ids`.
pub open spec fn places_among(places: Seq<int>, rows: Seq<RowView>, ids: Seq<Seq<char>>) -> Seq<int>
    decreases places.len(),
{
    if places.len() == 0 {
        Seq::empty()
    } else {
        let rest = places_among(places.drop_last(), rows, ids);
        if ids.contains(rows[places.last()].id) {
            rest.push(places.last())
        } else {
            rest
        }
    }
}

fn among(places: &Vec<usize>, rows: &Vec<Row>, ids: &Vec<String>) -> (r: Vec<usize>)
    requires
        forall|i: int| 0 <= i < places.len() ==> #[trigger] places@[i] < rows.len(),
    ensures
        as_places(r@) == places_among(as_places(places@), rows.deep_view(), ids.deep_view()),
        forall|i: int| 0 <= i < r.len() ==> #[trigger] r@[i] < rows.len(),
{
    let ghost at = as_places(places@);
    let ghost all = rows.deep_view();
    let ghost known = ids.deep_view();
    let mut out: Vec<usize> = Vec::new();
    let mut i: usize = 0;
    assert(as_places(out@) =~= places_among(at.take(0), all, known));
    while i < places.len()
        invariant
            i <= places.len(),
            at == as_places(places@),
            all == rows.deep_view(),
            known == ids.deep_view(),
            forall|j: int| 0 <= j < places.len() ==> #[trigger] places@[j] < rows.len(),
            as_places(out@) == places_among(at.take(i as int), all, known),
            forall|j: int| 0 <= j < out.len() ==> #[trigger] out@[j] < rows.len(),
        decreases places.len() - i,
    {
        let ghost prev = as_places(out@);
        assert(at.take(i + 1).drop_last() =~= at.take(i as int));
        let n = places[i];
        assert(at[i as int] == n);
        assert(all[n as int] == rows@[n as int].deep_view());
        if has_text(ids, rows[n].id.as_str()) {
            out.push(n);
            assert(as_places(out@) =~= prev.push(n as int));
        }
        i += 1;
    }
    assert(at.take(i as int) =~= at);
    out
}

/// What `clove_ready` answers.
pub open spec fn ready_told(
    args: JsonView,
    rows: Seq<RowView>,
    objects: Seq<Seq<(Seq<char>, JsonView)>>,
    ready: Seq<Seq<char>>,
) -> Result<JsonView, ToolErrorView> {
    match filters_asked(args) {
        Err(e) => Err(ToolErrorView::Clove(e)),
        Ok(f) => list_answer(
            args,
            rows,
            objects,
            f,
            places_among(kept_places(f, rows, rows.len() as int), rows, ready),
        ),
    }
}

/// `clove_ready`: the items that the filters keep and that can be started now. `ready_ids`
/// is what the dependency graph says of that.
pub fn ready(store: &Store, args: &Json, ready_ids: &Vec<String>) -> (r: Result<Json, ToolError>)
    requires
        store.wf(),
    ensures
        answered(r) == ready_told(
            args.shape(),
            store.rows.deep_view(),
            objects_view(store.objects@),
            ready_ids.deep_view(),
        ),
{
    let filters = match parse_filters(args) {
        Ok(f) => f,
        Err(e) => return Err(ToolError::Clove(e)),
    };
    let kept = select(&filters, &store.rows);
    let chosen = among(&kept, &store.rows, ready_ids);
    answer_list(args, &store.rows, &store.objects, &filters, &chosen)
}

/// An item that waits.
#[derive(Debug, PartialEq, Eq)]
pub struct BlockedItem {
    pub id: String,
    /// Dependencies that are open.
    pub blocking: Vec<String>,
    /// Dependencies that are missing.
    pub dangling: Vec<String>,
}

/// The model of a [`BlockedItem`].
pub struct BlockedView {
    pub id: Seq<char>,
    pub blocking: Seq<Seq<char>>,
    pub dangling: Seq<Seq<char>>,
}

impl DeepView for BlockedItem {
    type V = BlockedView;

    open spec fn deep_view(&self) -> BlockedView {
        BlockedView {
            id: self.id@,
            blocking: self.blocking.deep_view(),
            dangling: self.dangling.deep_view(),
        }
    }
}

/// The ids of the items that count as blocked: those that only wait for missing ones count
/// where that is asked for.
pub open spec fn blocked_ids(all: Seq<BlockedView>, include_warnings: bool) -> Seq<Seq<char>>
    decreases all.len(),
{
    if all.len() == 0 {
        Seq::empty()
    } else {
        let rest = blocked_ids(all.drop_last(), include_warnings);
        if include_warnings || all.last().blocking.len() > 0 {
            rest.push(all.last().id)
        } else {
            rest
        }
    }
}

fn ids_blocked(all: &Vec<BlockedItem>, include_warnings: bool) -> (r: Vec<String>)
    ensures
        r.deep_view() == blocked_ids(all.deep_view(), include_warnings),
{
    let ghost v = all.deep_view();
    let mut out: Vec<String> = Vec::new();
    let mut i: usize = 0;
    assert(out.deep_view() =~= blocked_ids(v.take(0), include_warnings));
    while i < all.len()
        invariant
            i <= all.len(),
            v == all.deep_view(),
            out.deep_view() == blocked_ids(v.take(i as int), include_warnings),
        decreases all.len() - i,
    {
        let ghost prev = out.deep_view();
        assert(v.take(i + 1).drop_last() =~= v.take(i as int));
        assert(v[i as int] == all@[i as int].deep_view());
        assert(v[i as int].blocking.len() == all@[i as int].blocking.len());
        if include_warnings || all[i].blocking.len() > 0 {
            out.push(all[i].id.clone());
            assert(out.deep_view() =~= prev.push(v[i as int].id));
        }
        i += 1;
    }
    assert(v.take(i as int) =~= v);
    out
}

/// What an item waits for, if it does.
pub open spec fn wait_of(all: Seq<BlockedView>, id: Seq<char>) -> Option<BlockedView>
    decreases all.len(),
{
    if all.len() == 0 {
        None
    } else if all[0].id == id {
        Some(all[0])
    } else {
        wait_of(all.drop_first(), id)
    }
}

fn find_wait<'a>(all: &'a Vec<BlockedItem>, id: &str) -> (r: Option<&'a BlockedItem>)
    ensures
        match r {
            Some(b) => wait_of(all.deep_view(), id@) == Some(b.deep_view()),
            None => wait_of(all.deep_view(), id@) is None,
        },
{
    let ghost v = all.deep_view();
    let mut i: usize = 0;
    assert(v.skip(0) =~= v);
    while i < all.len()
        invariant
            i <= all.len(),
            v == all.deep_view(),
            wait_of(v, id@) == wait_of(v.skip(i as int), id@),
        decreases all.len() - i,
    {
        assert(v.skip(i as int)[0] == v[i as int]);
        assert(v[i as int] == all@[i as int].deep_view());
        assert(v.skip(i as int).drop_first() =~= v.skip(i + 1));
        if text::same(all[i].id.as_str(), id) {
            return Some(&all[i]);
        }
        i += 1;
    }
    assert(v.skip(i as int).len() == 0);
    None
}

/// An object with what its item waits for: first what is open, then what is missing.
pub open spec fn with_wait(
    e: Seq<(Seq<char>, JsonView)>,
    wait: Option<BlockedView>,
) -> Seq<(Seq<char>, JsonView)> {
    match wait {
        Some(b) => put(
            put(e, "blocked_by"@, texts(b.blocking + b.dangling)),
            "dangling_deps"@,
            texts(b.dangling),
        ),
        None => e,
    }
}

/// The objects of all items, with what they wait for.
pub open spec fn objects_with_waits(
    rows: Seq<RowView>,
    objects: Seq<Seq<(Seq<char>, JsonView)>>,
    all: Seq<BlockedView>,
) -> Seq<Seq<(Seq<char>, JsonView)>> {
    Seq::new(objects.len(), |i: int| with_wait(objects[i], wait_of(all, rows[i].id)))
}

fn joined_ids(a: &Vec<String>, b: &Vec<String>) -> (r: Vec<String>)
    ensures
        r.deep_view() == a.deep_view() + b.deep_view(),
{
    let mut out = crate::registry::copy_strings(a);
    let ghost start = out.deep_view();
    let ghost all = b.deep_view();
    let mut i: usize = 0;
    assert(start + all.take(0) =~= start);
    while i < b.len()
        invariant
            i <= b.len(),
            all == b.deep_view(),
            out.deep_view() == start + all.take(i as int),
        decreases b.len() - i,
    {
        let ghost prev = out.deep_view();
        assert(all[i as int] == b@[i as int]@);
        out.push(b[i].clone());
        assert(out.deep_view() =~= prev.push(all[i as int]));
        assert(all.take(i + 1) =~= all.take(i as int).push(all[i as int]));
        assert(out.deep_view() =~= start + all.take(i + 1));
        i += 1;
    }
    assert(all.take(i as int) =~= all);
    out
}

fn add_waits(rows: &Vec<Row>, objects: &Vec<ListObject>, all: &Vec<BlockedItem>) -> (r: Vec<ListObject>)
    requires
        rows.len() == objects.len(),
    ensures
        r.len() == objects.len(),
        objects_view(r@) == objects_with_waits(
            rows.deep_view(),
            objects_view(objects@),
            all.deep_view(),
        ),
{
    let ghost rv = rows.deep_view();
    let ghost ov = objects_view(objects@);
    let ghost av = all.deep_view();
    let mut out: Vec<ListObject> = Vec::new();
    let mut i: usize = 0;
    while i < objects.len()
        invariant
            i <= objects.len(),
            rows.len() == objects.len(),
            rv == rows.deep_view(),
            ov == objects_view(objects@),
            av == all.deep_view(),
            out.len() == i,
            forall|j: int|
                0 <= j < i ==> entries(#[trigger] out@[j]@) == with_wait(
                    ov[j],
                    wait_of(av, rv[j].id),
                ),
        decreases objects.len() - i,
    {
        assert(rv[i as int] == rows@[i as int].deep_view());
        assert(ov[i as int] == entries(objects@[i as int]@));
        let mut map = copy_entries(&objects[i]);
        if let Some(b) = find_wait(all, rows[i].id.as_str()) {
            let by = joined_ids(&b.blocking, &b.dangling);
            insert(&mut map, "blocked_by".to_owned(), strings(&by));
            insert(&mut map, "dangling_deps".to_owned(), strings(&b.dangling));
        }
        out.push(map);
        i += 1;
    }
    assert(objects_view(out@) =~= objects_with_waits(rv, ov, av));
    out
}

/// What `clove_blocked` answers.
pub open spec fn blocked_told(
    args: JsonView,
    rows: Seq<RowView>,
    objects: Seq<Seq<(Seq<char>, JsonView)>>,
    all: Seq<BlockedView>,
) -> Result<JsonView, ToolErrorView> {
    match filters_asked(args) {
        Err(e) => Err(ToolErrorView::Clove(e)),
        Ok(f) => list_answer(
            args,
            rows,
            objects_with_waits(rows, objects, all),
            f,
            places_among(
                kept_places(f, rows, rows.len() as int),
                rows,
                blocked_ids(all, truth_arg(args, "include_warnings"@, false)),
            ),
        ),
    }
}

/// `clove_blocked`: the items that the filters keep and that wait, with what they wait for.
pub fn blocked(store: &Store, args: &Json, all: &Vec<BlockedItem>) -> (r: Result<Json, ToolError>)
    requires
        store.wf(),
    ensures
        answered(r) == blocked_told(
            args.shape(),
            store.rows.deep_view(),
            objects_view(store.objects@),
            all.deep_view(),
        ),
{
    let filters = match parse_filters(args) {
        Ok(f) => f,
        Err(e) => return Err(ToolError::Clove(e)),
    };
    let ids = ids_blocked(all, arg_bool(args, "include_warnings", false));
    let kept = select(&filters, &store.rows);
    let chosen = among(&kept, &store.rows, &ids);
    let objects = add_waits(&store.rows, &store.objects, all);
    answer_list(args, &store.rows, &objects, &filters, &chosen)
}

/// What `clove_search` answers.
pub open spec fn search_told(
    args: JsonView,
    rows: Seq<RowView>,
    objects: Seq<Seq<(Seq<char>, JsonView)>>,
    bodies: Seq<Seq<char>>,
) -> Result<JsonView, ToolErrorView> {
    match required_arg(args, "text"@) {
        Err(e) => Err(e),
        Ok(needle) => match search_order_named(
            text_arg(args, "sort"@),
            truth_arg(args, "desc"@, false),
        ) {
            Err(e) => Err(ToolErrorView::Clove(e)),
            Ok(order) => {
                let hits = found(order, rows, bodies, needle);
                Ok(
                    page_object(
                        PageInfo {
                            total: hits.len() as int,
                            window: window_arg(args),
                            sort: order.sort_word(),
                            dir: order.dir_word(),
                            filters: None,
                        },
                        shaped_values(
                            objects_at(objects, page_of(hits, window_arg(args))),
                            fields_arg(args),
                            truth_arg(args, "compact"@, true),
                        ),
                    ),
                )
            },
        },
    }
}

/// `clove_search`: the items that mention a text, those that do so in their title first.
pub fn search(store: &Store, args: &Json) -> (r: Result<Json, ToolError>)
    requires
        store.wf(),
    ensures
        answered(r) == search_told(
            args.shape(),
            store.rows.deep_view(),
            objects_view(store.objects@),
            store.bodies.deep_view(),
        ),
{
    let needle = match req_str(args, "text") {
        Ok(s) => s,
        Err(e) => return Err(e),
    };
    let order: SearchOrder = match search_order_of(
        arg_str(args, "sort"),
        arg_bool(args, "desc", false),
    ) {
        Ok(o) => o,
        Err(e) => return Err(ToolError::Clove(e)),
    };
    let window = arg_window(args);
    let hits = search_rows(order, &store.rows, &store.bodies, needle);
    assert(as_places(hits@).len() == hits.len());
    let page = cut(&hits, window);
    proof {
        lemma_cut_within(hits@, page@, store.rows.len() as int);
    }
    let picked = pick(&store.objects, &page);
    let fields = arg_fields(args);
    let items = shape_all(&picked, fields.as_ref(), arg_bool(args, "compact", true));
    Ok(page_json(hits.len(), window, order.reported_sort(), order.dir_str(), None, items))
}

/// What `clove_show` answers.
pub open spec fn show_told(args: JsonView, s: ShownView) -> JsonView {
    JsonView::Object(
        shaped(full_item(s), fields_arg(args), truth_arg(args, "compact"@, true)),
    )
}

/// `clove_show`: one item in full.
pub fn show(args: &Json, s: &Shown) -> (r: Json)
    ensures
        r.shape() == show_told(args.shape(), s.deep_view()),
{
    let full = full_object(s);
    let fields = arg_fields(args);
    let map = shape_object(&full, fields.as_ref(), arg_bool(args, "compact", true));
    proof {
        crate::json::lemma_object_shape(map);
    }
    Json::Object(map)
}

/// The depth of a tree that is asked for.
pub open spec fn depth_arg(args: JsonView) -> usize {
    match count_arg(args, "depth"@) {
        Some(n) => n,
        None => 5,
    }
}

/// Reads the arguments of `clove_dep_tree`: the id, and the depth, 5 without one.
pub fn dep_tree_args(args: &Json) -> (r: Result<(String, usize), ToolError>)
    ensures
        match r {
            Ok((id, depth)) => required_arg(args.shape(), "id"@) == Ok::<
                Seq<char>,
                ToolErrorView,
            >(id@) && depth == depth_arg(args.shape()),
            Err(e) => required_arg(args.shape(), "id"@) == Err::<Seq<char>, ToolErrorView>(
                e.deep_view(),
            ),
        },
{
    let id = match req_str(args, "id") {
        Ok(s) => s.to_owned(),
        Err(e) => return Err(e),
    };
    let depth = match arg_usize(args, "depth") {
        Some(n) => n,
        None => 5,
    };
    Ok((id, depth))
}

/// What is asked of the statistics.
pub open spec fn stats_asked(args: JsonView) -> StatsOptions {
    StatsOptions {
        top: match count_arg(args, "top"@) {
            Some(n) => n,
            None => 10,
        },
        include_epics: !truth_arg(args, "no_epics"@, false),
    }
}

/// Reads the arguments of `clove_stats`.
pub fn stats_args(args: &Json) -> (r: StatsOptions)
    ensures
        r == stats_asked(args.shape()),
{
    StatsOptions {
        top: match arg_usize(args, "top") {
            Some(n) => n,
            None => 10,
        },
        include_epics: !arg_bool(args, "no_epics", false),
    }
}

// ---- Writes -------------------------------------------------------------------

/// A new item.
#[derive(Debug, PartialEq, Eq)]
pub struct NewItem {
    pub title: String,
    /// The configured default where none is given.
    pub item_type: Option<ItemType>,
    pub priority: u8,
    /// Canonical, in order, each once.
    pub labels: Vec<String>,
    pub deps: Vec<String>,
    pub parent: Option<String>,
    pub assignee: Option<String>,
    pub body: String,
}

/// The model of a [`NewItem`].
pub struct NewView {
    pub title: Seq<char>,
    pub item_type: Option<ItemType>,
    pub priority: u8,
    pub labels: Seq<Seq<char>>,
    pub deps: Seq<Seq<char>>,
    pub parent: Option<Seq<char>>,
    pub assignee: Option<Seq<char>>,
    pub body: Seq<char>,
}

impl DeepView for NewItem {
    type V = NewView;

    open spec fn deep_view(&self) -> NewView {
        NewView {
            title: self.title@,
            item_type: self.item_type,
            priority: self.priority,
            labels: self.labels.deep_view(),
            deps: self.deps.deep_view(),
            parent: self.parent.deep_view(),
            assignee: self.assignee.deep_view(),
            body: self.body@,
        }
    }
}

/// A label put into a list that is in order and holds each label once.
pub open spec fn with_label(list: Seq<Seq<char>>, label: Seq<char>) -> Seq<Seq<char>>
    decreases list.len(),
{
    if list.len() == 0 {
        seq![label]
    } else if list.last() == label {
        list
    } else if text::precedes(label, list.last()) {
        with_label(list.drop_last(), label).push(list.last())
    } else {
        list.push(label)
    }
}

/// Labels in order, each once.
pub open spec fn label_set(raw: Seq<Seq<char>>) -> Seq<Seq<char>>
    decreases raw.len(),
{
    if raw.len() == 0 {
        Seq::empty()
    } else {
        with_label(label_set(raw.drop_last()), raw.last())
    }
}

proof fn lemma_with_label_at(list: Seq<Seq<char>>, label: Seq<char>, n: int)
    requires
        0 <= n <= list.len(),
        forall|j: int|
            n <= j < list.len() ==> text::precedes(label, #[trigger] list[j]) && list[j] != label,
        n > 0 ==> list[n - 1] == label || !text::precedes(label, list[n - 1]),
    ensures
        with_label(list, label) == (if n > 0 && list[n - 1] == label {
            list
        } else {
            list.insert(n, label)
        }),
    decreases list.len() - n,
{
    if n < list.len() {
        let init = list.drop_last();
        lemma_with_label_at(init, label, n);
        if n > 0 && list[n - 1] == label {
            assert(init.push(list.last()) =~= list);
        } else {
            assert(init.insert(n, label).push(list.last()) =~= list.insert(n, label));
        }
    } else if list.len() == 0 {
        assert(seq![label] =~= list.insert(0, label));
    } else if list.last() != label {
        assert(list.push(label) =~= list.insert(n, label));
    }
}

fn add_label(list: &mut Vec<String>, label: String)
    ensures
        final(list).deep_view() == with_label(old(list).deep_view(), label@),
{
    let ghost before = list.deep_view();
    let mut n: usize = list.len();
    while n > 0 && !text::same(list[n - 1].as_str(), label.as_str()) && text::less(
        label.as_str(),
        list[n - 1].as_str(),
    )
        invariant
            n <= list.len(),
            list.deep_view() == before,
            forall|j: int|
                n <= j < before.len() ==> text::precedes(label@, #[trigger] before[j]) && before[j]
                    != label@,
        decreases n,
    {
        assert(before[n - 1] == list@[n - 1]@);
        n -= 1;
    }
    proof {
        if n > 0 {
            assert(before[n - 1] == list@[n - 1]@);
        }
        lemma_with_label_at(before, label@, n as int);
    }
    if n > 0 && text::same(list[n - 1].as_str(), label.as_str()) {
        return;
    }
    let ghost v = label@;
    list.insert(n, label);
    assert(list.deep_view() =~= before.insert(n as int, v));
}

fn labels_of(raw: &Vec<String>) -> (r: Vec<String>)
    ensures
        r.deep_view() == label_set(raw.deep_view()),
{
    let ghost all = raw.deep_view();
    let mut out: Vec<String> = Vec::new();
    let mut i: usize = 0;
    assert(out.deep_view() =~= label_set(all.take(0)));
    while i < raw.len()
        invariant
            i <= raw.len(),
            all == raw.deep_view(),
            out.deep_view() == label_set(all.take(i as int)),
        decreases raw.len() - i,
    {
        assert(all.take(i + 1).drop_last() =~= all.take(i as int));
        assert(all[i as int] == raw@[i as int]@);
        add_label(&mut out, raw[i].clone());
        i += 1;
    }
    assert(all.take(i as int) =~= all);
    out
}

/// The labels of a new item are in order, and none is there twice.
pub proof fn law_labels_are_a_set(raw: Seq<Seq<char>>)
    ensures
        forall|i: int, j: int|
            0 <= i < j < label_set(raw).len() ==> text::precedes(
                #[trigger] label_set(raw)[i],
                #[trigger] label_set(raw)[j],
            ),
    decreases raw.len(),
{
    if raw.len() > 0 {
        law_labels_are_a_set(raw.drop_last());
        lemma_with_label_rises(label_set(raw.drop_last()), raw.last());
    }
}

proof fn lemma_with_label_rises(list: Seq<Seq<char>>, label: Seq<char>)
    requires
        forall|i: int, j: int|
            0 <= i < j < list.len() ==> text::precedes(#[trigger] list[i], #[trigger] list[j]),
    ensures
        forall|i: int, j: int|
            0 <= i < j < with_label(list, label).len() ==> text::precedes(
                #[trigger] with_label(list, label)[i],
                #[trigger] with_label(list, label)[j],
            ),
        forall|i: int|
            0 <= i < with_label(list, label).len() ==> (#[trigger] with_label(list, label)[i]
                == label || list.contains(with_label(list, label)[i])),
    decreases list.len(),
{
    let r = with_label(list, label);
    if list.len() == 0 {
    } else if list.last() == label {
        assert forall|i: int| 0 <= i < r.len() implies (#[trigger] r[i] == label || list.contains(
            r[i],
        )) by {
            assert(list[i] == r[i]);
        }
    } else if text::precedes(label, list.last()) {
        let init = list.drop_last();
        assert forall|i: int, j: int| 0 <= i < j < init.len() implies text::precedes(
            #[trigger] init[i],
            #[trigger] init[j],
        ) by {
            assert(init[i] == list[i] && init[j] == list[j]);
        }
        lemma_with_label_rises(init, label);
        let mid = with_label(init, label);
        assert forall|i: int, j: int| 0 <= i < j < r.len() implies text::precedes(
            #[trigger] r[i],
            #[trigger] r[j],
        ) by {
            if j == mid.len() {
                assert(r[i] == mid[i]);
                if mid[i] != label {
                    let k = choose|k: int| 0 <= k < init.len() && init[k] == mid[i];
                    assert(list[k] == mid[i] && list[list.len() - 1] == list.last());
                }
            } else {
                assert(r[i] == mid[i] && r[j] == mid[j]);
            }
        }
        assert forall|i: int| 0 <= i < r.len() implies (#[trigger] r[i] == label || list.contains(
            r[i],
        )) by {
            if i < mid.len() {
                assert(r[i] == mid[i]);
                if mid[i] != label {
                    let k = choose|k: int| 0 <= k < init.len() && init[k] == mid[i];
                    assert(list[k] == r[i]);
                }
            } else {
                assert(list[list.len() - 1] == r[i]);
            }
        }
    } else {
        text::lemma_precedes_total(label, list.last());
        text::lemma_precedes_total(list.last(), label);
        assert forall|i: int, j: int| 0 <= i < j < r.len() implies text::precedes(
            #[trigger] r[i],
            #[trigger] r[j],
        ) by {
            if j == list.len() {
                assert(r[i] == list[i]);
                if i < list.len() - 1 {
                    assert(text::precedes(list[i], list[list.len() - 1]));
                    text::lemma_precedes_trans(list[i], list.last(), label);
                }
            } else {
                assert(r[i] == list[i] && r[j] == list[j]);
            }
        }
        assert forall|i: int| 0 <= i < r.len() implies (#[trigger] r[i] == label || list.contains(
            r[i],
        )) by {
            if i < list.len() {
                assert(list[i] == r[i]);
            }
        }
    }
}

/// The priority that the arguments give: 2 without one.
pub open spec fn priority_arg(args: JsonView) -> Result<u8, ErrorView> {
    match number_arg(args, "priority"@) {
        Some(n) => priority_of(text::decimal(n as nat)),
        None => Ok(2u8),
    }
}

/// The type that the arguments give, if they do.
pub open spec fn type_arg(args: JsonView) -> Result<Option<ItemType>, ErrorView> {
    match text_arg(args, "type"@) {
        Some(s) => match type_of(s) {
            Ok(t) => Ok(Some(t)),
            Err(e) => Err(e),
        },
        None => Ok(None),
    }
}

/// What the item store makes of the labels and the ids in the arguments of `clove_new`: the
/// form it keeps each in, or why it refuses it.
#[derive(Debug)]
pub struct NewChecks {
    /// Each entry of `labels`, in its order.
    pub labels: Vec<Result<String, CloveError>>,
    /// Each entry of `deps`, in its order.
    pub deps: Vec<Result<String, CloveError>>,
    pub parent: Option<Result<String, CloveError>>,
}

/// The model of a [`NewChecks`].
pub struct ChecksView {
    pub labels: Seq<Result<Seq<char>, ErrorView>>,
    pub deps: Seq<Result<Seq<char>, ErrorView>>,
    pub parent: Option<Result<Seq<char>, ErrorView>>,
}

/// The models of some checks.
pub open spec fn outcomes(all: Seq<Result<String, CloveError>>) -> Seq<Result<Seq<char>, ErrorView>> {
    Seq::new(all.len(), |i: int| crate::error::outcome(all[i]))
}

impl DeepView for NewChecks {
    type V = ChecksView;

    open spec fn deep_view(&self) -> ChecksView {
        ChecksView {
            labels: outcomes(self.labels@),
            deps: outcomes(self.deps@),
            parent: match self.parent {
                Some(r) => Some(crate::error::outcome(r)),
                None => None,
            },
        }
    }
}

/// All that passed, or the first refusal.
pub open spec fn passed(all: Seq<Result<Seq<char>, ErrorView>>) -> Result<
    Seq<Seq<char>>,
    ErrorView,
>
    decreases all.len(),
{
    if all.len() == 0 {
        Ok(Seq::empty())
    } else {
        match passed(all.drop_last()) {
            Err(e) => Err(e),
            Ok(some) => match all.last() {
                Ok(s) => Ok(some.push(s)),
                Err(e) => Err(e),
            },
        }
    }
}

proof fn lemma_refusal_stays(all: Seq<Result<Seq<char>, ErrorView>>, n: int)
    requires
        0 <= n <= all.len(),
        passed(all.take(n)) is Err,
    ensures
        passed(all) == passed(all.take(n)),
    decreases all.len() - n,
{
    if n < all.len() {
        assert(all.take(n + 1).drop_last() =~= all.take(n));
        lemma_refusal_stays(all, n + 1);
    } else {
        assert(all.take(n) =~= all);
    }
}

fn pass(all: Vec<Result<String, CloveError>>) -> (r: Result<Vec<String>, CloveError>)
    ensures
        crate::error::outcome(r) == passed(outcomes(all@)),
{
    let ghost given = outcomes(all@);
    let mut rest: Vec<Result<String, CloveError>> = all;
    let ghost mut done: int = 0;
    let mut out: Vec<String> = Vec::new();
    assert(given.skip(0) =~= given);
    assert(out.deep_view() =~= Seq::<Seq<char>>::empty());
    while rest.len() > 0
        invariant
            0 <= done <= given.len(),
            given == outcomes(all@),
            outcomes(rest@) == given.skip(done),
            passed(given.take(done)) == Ok::<Seq<Seq<char>>, ErrorView>(out.deep_view()),
        decreases rest.len(),
    {
        let ghost prev = rest@;
        let ghost before = out.deep_view();
        assert(outcomes(prev).len() == prev.len());
        assert(outcomes(prev)[0] == given[done]);
        let first = rest.remove(0);
        assert(outcomes(rest@) =~= given.skip(done + 1)) by {
            assert forall|i: int| 0 <= i < rest@.len() implies outcomes(rest@)[i] == given.skip(
                done + 1,
            )[i] by {
                assert(rest@[i] == prev[i + 1]);
                assert(outcomes(prev)[i + 1] == given.skip(done)[i + 1]);
            }
        }
        assert(given.take(done + 1).drop_last() =~= given.take(done));
        match first {
            Ok(s) => {
                out.push(s);
                assert(out.deep_view() =~= before.push(s@));
            },
            Err(e) => {
                proof {
                    lemma_refusal_stays(given, done + 1);
                }
                return Err(e);
            },
        }
        proof {
            done = done + 1;
        }
    }
    proof {
        assert(outcomes(rest@).len() == 0);
        assert(given.take(done) =~= given);
    }
    Ok(out)
}

/// The item that `clove_new` asks for. What is wrong is told in the order of the fields: the
/// title, the type, the priority, the labels, the dependencies, the parent.
pub open spec fn new_asked(args: JsonView, checks: ChecksView) -> Result<NewView, ToolErrorView> {
    match required_arg(args, "title"@) {
        Err(e) => Err(e),
        Ok(title) => match type_arg(args) {
            Err(e) => Err(ToolErrorView::Clove(e)),
            Ok(item_type) => match priority_arg(args) {
                Err(e) => Err(ToolErrorView::Clove(e)),
                Ok(priority) => match passed(checks.labels) {
                    Err(e) => Err(ToolErrorView::Clove(e)),
                    Ok(labels) => match passed(checks.deps) {
                        Err(e) => Err(ToolErrorView::Clove(e)),
                        Ok(deps) => match checks.parent {
                            Some(Err(e)) => Err(ToolErrorView::Clove(e)),
                            parent => Ok(
                                NewView {
                                    title,
                                    item_type,
                                    priority,
                                    labels: label_set(labels),
                                    deps,
                                    parent: match parent {
                                        Some(Ok(p)) => Some(p),
                                        _ => None,
                                    },
                                    assignee: text_arg(args, "assignee"@),
                                    body: match text_arg(args, "body"@) {
                                        Some(b) => b,
                                        None => Seq::empty(),
                                    },
                                },
                            ),
                        },
                    },
                },
            },
        },
    }
}

/// The labels, the dependencies and the parent that `clove_new` is given, for the item store
/// to check.
pub fn new_mentions(args: &Json) -> (r: (Vec<String>, Vec<String>, Option<String>))
    ensures
        r.0.deep_view() == list_arg(args.shape(), "labels"@),
        r.1.deep_view() == list_arg(args.shape(), "deps"@),
        r.2.deep_view() == text_arg(args.shape(), "parent"@),
{
    (
        str_array(args, "labels"),
        str_array(args, "deps"),
        crate::view::owned(arg_str(args, "parent")),
    )
}

/// Reads the arguments of `clove_new`, with what the item store makes of its
/// [`new_mentions`].
pub fn new_item(args: &Json, checks: NewChecks) -> (r: Result<NewItem, ToolError>)
    ensures
        match r {
            Ok(n) => new_asked(args.shape(), checks.deep_view()) == Ok::<NewView, ToolErrorView>(
                n.deep_view(),
            ),
            Err(e) => new_asked(args.shape(), checks.deep_view()) == Err::<NewView, ToolErrorView>(
                e.deep_view(),
            ),
        },
{
    let title = match req_str(args, "title") {
        Ok(s) => s.to_owned(),
        Err(e) => return Err(e),
    };
    let item_type = match arg_str(args, "type") {
        Some(s) => match parse_type(s) {
            Ok(t) => Some(t),
            Err(e) => return Err(ToolError::Clove(e)),
        },
        None => None,
    };
    let priority: u8 = match arg_u64(args, "priority") {
        Some(n) => {
            let word = text::decimal_of(n);
            match parse_priority(word.as_str()) {
                Ok(p) => p,
                Err(e) => return Err(ToolError::Clove(e)),
            }
        },
        None => 2,
    };
    let labels = match pass(checks.labels) {
        Ok(all) => labels_of(&all),
        Err(e) => return Err(ToolError::Clove(e)),
    };
    let deps = match pass(checks.deps) {
        Ok(all) => all,
        Err(e) => return Err(ToolError::Clove(e)),
    };
    let parent = match checks.parent {
        Some(Ok(p)) => Some(p),
        Some(Err(e)) => return Err(ToolError::Clove(e)),
        None => None,
    };
    let body = match arg_str(args, "body") {
        Some(b) => b.to_owned(),
        None => String::new(),
    };
    Ok(
        NewItem {
            title,
            item_type,
            priority,
            labels,
            deps,
            parent,
            assignee: crate::view::owned(arg_str(args, "assignee")),
            body,
        },
    )
}

/// Reads two text arguments that must be there, the first one first.
pub open spec fn two_required(args: JsonView, a: Seq<char>, b: Seq<char>) -> Result<
    (Seq<char>, Seq<char>),
    ToolErrorView,
> {
    match required_arg(args, a) {
        Err(e) => Err(e),
        Ok(x) => match required_arg(args, b) {
            Err(e) => Err(e),
            Ok(y) => Ok((x, y)),
        },
    }
}

fn req_two(args: &Json, a: &str, b: &str) -> (r: Result<(String, String), ToolError>)
    ensures
        match r {
            Ok((x, y)) => two_required(args.shape(), a@, b@) == Ok::<
                (Seq<char>, Seq<char>),
                ToolErrorView,
            >((x@, y@)),
            Err(e) => two_required(args.shape(), a@, b@) == Err::<
                (Seq<char>, Seq<char>),
                ToolErrorView,
            >(e.deep_view()),
        },
{
    let x = match req_str(args, a) {
        Ok(s) => s.to_owned(),
        Err(e) => return Err(e),
    };
    let y = match req_str(args, b) {
        Ok(s) => s.to_owned(),
        Err(e) => return Err(e),
    };
    Ok((x, y))
}

/// Reads the arguments of `clove_status`: the id, and the status that its word stands for.
pub fn status(args: &Json) -> (r: Result<(String, ItemStatus), ToolError>)
    ensures
        match two_required(args.shape(), "id"@, "status"@) {
            Err(e) => r is Err && r->Err_0.deep_view() == e,
            Ok((id, word)) => match status_of(word) {
                Err(e) => r is Err && r->Err_0.deep_view() == ToolErrorView::Clove(e),
                Ok(s) => r matches Ok((i, t)) && i@ == id && t == s,
            },
        },
{
    match req_two(args, "id", "status") {
        Err(e) => Err(e),
        Ok((id, word)) => match parse_status(word.as_str()) {
            Ok(s) => Ok((id, s)),
            Err(e) => Err(ToolError::Clove(e)),
        },
    }
}

/// The id and the message that `clove_comment` is given. An id that the item store refuses,
/// or that no item has, is told before a missing message.
pub open spec fn comment_asked(args: JsonView, known: Result<bool, ErrorView>) -> Result<
    (Seq<char>, Seq<char>),
    ToolErrorView,
> {
    match required_arg(args, "id"@) {
        Err(e) => Err(e),
        Ok(id) => match known {
            Err(e) => Err(ToolErrorView::Clove(e)),
            Ok(false) => Err(ToolErrorView::Clove(ErrorView::NotFound { id })),
            Ok(true) => match required_arg(args, "message"@) {
                Err(e) => Err(e),
                Ok(message) => Ok((id, message)),
            },
        },
    }
}

/// Reads the arguments of `clove_comment`. `known` is what the item store makes of the id:
/// is there such an item?
pub fn comment(args: &Json, known: Result<bool, CloveError>) -> (r: Result<
    (String, String),
    ToolError,
>)
    ensures
        ({
            let asked = comment_asked(args.shape(), known_view(known));
            match r {
                Ok((id, message)) => asked == Ok::<(Seq<char>, Seq<char>), ToolErrorView>(
                    (id@, message@),
                ),
                Err(e) => asked == Err::<(Seq<char>, Seq<char>), ToolErrorView>(e.deep_view()),
            }
        }),
{
    let id = match req_str(args, "id") {
        Ok(s) => s.to_owned(),
        Err(e) => return Err(e),
    };
    match known {
        Err(e) => return Err(ToolError::Clove(e)),
        Ok(there) => if !there {
            return Err(ToolError::Clove(CloveError::NotFound { id }));
        },
    }
    match req_str(args, "message") {
        Ok(s) => Ok((id, s.to_owned())),
        Err(e) => Err(e),
    }
}

/// The model of what the item store makes of an id.
pub open spec fn known_view(known: Result<bool, CloveError>) -> Result<bool, ErrorView> {
    match known {
        Ok(b) => Ok(b),
        Err(e) => Err(e.deep_view()),
    }
}

/// Reads the arguments of the tools on dependencies: the id, and the id that it depends on.
pub fn dep_args(args: &Json) -> (r: Result<(String, String), ToolError>)
    ensures
        match r {
            Ok((id, dep)) => two_required(args.shape(), "id"@, "dep_id"@) == Ok::<
                (Seq<char>, Seq<char>),
                ToolErrorView,
            >((id@, dep@)),
            Err(e) => two_required(args.shape(), "id"@, "dep_id"@) == Err::<
                (Seq<char>, Seq<char>),
                ToolErrorView,
            >(e.deep_view()),
        },
{
    req_two(args, "id", "dep_id")
}

/// What a tool answers that wrote an item.
pub open spec fn written_object(id: Seq<char>, path: Seq<char>) -> JsonView {
    obj(seq![("id"@, JsonView::Text(id)), ("path"@, JsonView::Text(path))])
}

/// What a written item answers with: its id and where it lies.
pub fn written(id: &str, path: &str) -> (r: Json)
    ensures
        r.shape() == written_object(id@, path@),
{
    let v: Vec<(String, Json)> = vec![
        ("id".to_owned(), string(id)),
        ("path".to_owned(), string(path)),
    ];
    assert(pairs(v@) =~= seq![("id"@, JsonView::Text(id@)), ("path"@, JsonView::Text(path@))]);
    object(v)
}

/// Why a dependency is refused, in the order in which that is looked at: an item that is
/// not there, an item that would depend on itself, a cycle, and one that is there already.
pub open spec fn dep_problem(
    id: Seq<char>,
    dep: Seq<char>,
    id_exists: bool,
    dep_exists: bool,
    would_cycle: bool,
    already: bool,
) -> Option<ErrorView> {
    if !id_exists {
        Some(ErrorView::NotFound { id })
    } else if !dep_exists {
        Some(ErrorView::NotFound { id: dep })
    } else if id == dep {
        Some(ErrorView::SelfDependency { id })
    } else if would_cycle {
        Some(ErrorView::DependencyCycle { from: id, to: dep, cycle: seq![id, dep] })
    } else if already {
        Some(ErrorView::DependencyExists { from: id, to: dep })
    } else {
        None
    }
}

/// Decides whether a dependency may be added.
pub fn dep_add(
    id: &str,
    dep: &str,
    id_exists: bool,
    dep_exists: bool,
    would_cycle: bool,
    already: bool,
) -> (r: Result<(), CloveError>)
    ensures
        crate::error::verdict(r) == dep_problem(
            id@,
            dep@,
            id_exists,
            dep_exists,
            would_cycle,
            already,
        ),
{
    if !id_exists {
        return Err(CloveError::NotFound { id: id.to_owned() });
    }
    if !dep_exists {
        return Err(CloveError::NotFound { id: dep.to_owned() });
    }
    if text::same(id, dep) {
        return Err(CloveError::SelfDependency { id: id.to_owned() });
    }
    if would_cycle {
        let cycle: Vec<String> = vec![id.to_owned(), dep.to_owned()];
        assert(cycle.deep_view() =~= seq![id@, dep@]);
        return Err(CloveError::DependencyCycle { from: id.to_owned(), to: dep.to_owned(), cycle });
    }
    if already {
        return Err(CloveError::DependencyExists { from: id.to_owned(), to: dep.to_owned() });
    }
    Ok(())
}

/// Nothing that would close a cycle is ever added.
pub proof fn law_no_dependency_closes_a_cycle(
    id: Seq<char>,
    dep: Seq<char>,
    id_exists: bool,
    dep_exists: bool,
    would_cycle: bool,
    already: bool,
)
    ensures
        dep_problem(id, dep, id_exists, dep_exists, would_cycle, already) is None ==> !would_cycle
            && id != dep && id_exists && dep_exists,
{
}

// ---- Edits --------------------------------------------------------------------

/// An assignment, where there is a value.
pub open spec fn assigned(key: Seq<char>, value: Option<Seq<char>>) -> Seq<Seq<char>> {
    match value {
        Some(v) => seq![key + v],
        None => Seq::empty(),
    }
}

/// An assignment for each value.
pub open spec fn each_assigned(key: Seq<char>, values: Seq<Seq<char>>) -> Seq<Seq<char>> {
    Seq::new(values.len(), |i: int| key + values[i])
}

/// The number argument as a word.
pub open spec fn number_word(n: Option<u64>) -> Option<Seq<char>> {
    match n {
        Some(n) => Some(text::decimal(n as nat)),
        None => None,
    }
}

/// The assignee: whatever is given that is no text clears it.
pub open spec fn assignee_arg(args: JsonView) -> Option<Seq<char>> {
    match args.member("assignee"@) {
        Some(v) => Some(match v.text() {
            Some(s) => s,
            None => Seq::empty(),
        }),
        None => None,
    }
}

/// The assignments that the arguments of `clove_edit` stand for.
pub open spec fn edit_tokens(args: JsonView) -> Seq<Seq<char>> {
    assigned("status="@, text_arg(args, "status"@)) + assigned(
        "priority="@,
        number_word(number_arg(args, "priority"@)),
    ) + assigned("type="@, text_arg(args, "type"@)) + assigned(
        "title="@,
        text_arg(args, "title"@),
    ) + assigned("assignee="@, assignee_arg(args)) + each_assigned(
        "labels+="@,
        list_arg(args, "add_labels"@),
    ) + each_assigned("labels-="@, list_arg(args, "remove_labels"@))
}

fn push_assigned(out: &mut Vec<String>, key: &str, value: Option<&str>)
    ensures
        final(out).deep_view() == old(out).deep_view() + assigned(key@, text::opt_view(value)),
{
    let ghost start = out.deep_view();
    match value {
        Some(v) => {
            let word = text::cat2(key, v);
            let ghost w = word@;
            out.push(word);
            assert(out.deep_view() =~= start + seq![w]);
        },
        None => {
            assert(start + Seq::<Seq<char>>::empty() =~= start);
        },
    }
}

fn push_each(out: &mut Vec<String>, key: &str, values: &Vec<String>)
    ensures
        final(out).deep_view() == old(out).deep_view() + each_assigned(key@, values.deep_view()),
{
    let ghost start = out.deep_view();
    let ghost all = values.deep_view();
    let ghost want = each_assigned(key@, all);
    let mut i: usize = 0;
    assert(start + want.take(0) =~= start);
    while i < values.len()
        invariant
            i <= values.len(),
            all == values.deep_view(),
            want == each_assigned(key@, all),
            out.deep_view() == start + want.take(i as int),
        decreases values.len() - i,
    {
        let ghost prev = out.deep_view();
        assert(all[i as int] == values@[i as int]@);
        out.push(text::cat2(key, values[i].as_str()));
        assert(out.deep_view() =~= prev.push(want[i as int]));
        assert(want.take(i + 1) =~= want.take(i as int).push(want[i as int]));
        assert(out.deep_view() =~= start + want.take(i + 1));
        i += 1;
    }
    assert(want.take(i as int) =~= want);
}

/// Reads the arguments of `clove_edit` as one list of assignments; none at all is refused.
pub fn edit(args: &Json) -> (r: Result<Vec<String>, ToolError>)
    ensures
        match r {
            Ok(tokens) => tokens.deep_view() == edit_tokens(args.shape()) && edit_tokens(
                args.shape(),
            ).len() > 0,
            Err(e) => edit_tokens(args.shape()).len() == 0 && e.deep_view() == ToolErrorView::Args(
                "no fields to edit"@,
            ),
        },
{
    let mut out: Vec<String> = Vec::new();
    assert(out.deep_view() =~= Seq::<Seq<char>>::empty());
    push_assigned(&mut out, "status=", arg_str(args, "status"));
    assert(out.deep_view() =~= assigned("status="@, text_arg(args.shape(), "status"@)));
    let priority = match arg_u64(args, "priority") {
        Some(n) => Some(text::decimal_of(n)),
        None => None,
    };
    push_assigned(&mut out, "priority=", borrowed(&priority));
    push_assigned(&mut out, "type=", arg_str(args, "type"));
    push_assigned(&mut out, "title=", arg_str(args, "title"));
    let assignee = match args.get("assignee") {
        Some(v) => Some(
            match v.as_str() {
                Some(s) => s.to_owned(),
                None => String::new(),
            },
        ),
        None => None,
    };
    assert(assignee.deep_view() == assignee_arg(args.shape()));
    push_assigned(&mut out, "assignee=", borrowed(&assignee));
    let more = str_array(args, "add_labels");
    push_each(&mut out, "labels+=", &more);
    let less = str_array(args, "remove_labels");
    push_each(&mut out, "labels-=", &less);
    assert(out.deep_view() == edit_tokens(args.shape()));
    assert(out.deep_view().len() == out.len());
    if out.len() == 0 {
        return Err(ToolError::Args("no fields to edit".to_owned()));
    }
    Ok(out)
}

// ---- What the arguments ask for, and what is answered ---------------------------

/// Each tool goes by its own name, and each name that is advertised is a tool's.
pub proof fn law_each_tool_goes_by_its_name(i: int)
    ensures
        Tool::Ready.name() == "clove_ready"@,
        Tool::Blocked.name() == "clove_blocked"@,
        Tool::List.name() == "clove_list"@,
        Tool::Show.name() == "clove_show"@,
        Tool::Search.name() == "clove_search"@,
        Tool::Comments.name() == "clove_comments"@,
        Tool::DepTree.name() == "clove_dep_tree"@,
        Tool::Stats.name() == "clove_stats"@,
        Tool::New.name() == "clove_new"@,
        Tool::Status.name() == "clove_status"@,
        Tool::Edit.name() == "clove_edit"@,
        Tool::Comment.name() == "clove_comment"@,
        Tool::DepAdd.name() == "clove_dep_add"@,
        Tool::DepRemove.name() == "clove_dep_remove"@,
        Tool::SetParent.name() == "clove_set_parent"@,
        0 <= i < crate::cmd::mcp::tool_names().len() ==> exists|t: Tool|
            #[trigger] t.name() == crate::cmd::mcp::tool_names()[i],
{
    let n = crate::cmd::mcp::tool_names();
    if 0 <= i < n.len() {
        assert(i == 0 ==> Tool::Ready.name() == n[i]);
        assert(i == 1 ==> Tool::Blocked.name() == n[i]);
        assert(i == 2 ==> Tool::List.name() == n[i]);
        assert(i == 3 ==> Tool::Show.name() == n[i]);
        assert(i == 4 ==> Tool::Search.name() == n[i]);
        assert(i == 5 ==> Tool::Comments.name() == n[i]);
        assert(i == 6 ==> Tool::DepTree.name() == n[i]);
        assert(i == 7 ==> Tool::Stats.name() == n[i]);
        assert(i == 8 ==> Tool::New.name() == n[i]);
        assert(i == 9 ==> Tool::Status.name() == n[i]);
        assert(i == 10 ==> Tool::Edit.name() == n[i]);
        assert(i == 11 ==> Tool::Comment.name() == n[i]);
        assert(i == 12 ==> Tool::DepAdd.name() == n[i]);
        assert(i == 13 ==> Tool::DepRemove.name() == n[i]);
        assert(i == 14 ==> Tool::SetParent.name() == n[i]);
    }
}

/// An argument is what stands under its key; one that is missing, or not of its kind, is as if
/// it had not been given.
pub proof fn law_an_argument_is_what_stands_under_its_key(
    args: JsonView,
    key: Seq<char>,
    s: Seq<char>,
    n: u64,
    b: bool,
    default: bool,
)
    ensures
        args.member(key) == Some(JsonView::Text(s)) ==> text_arg(args, key) == Some(s)
            && required_arg(args, key) == Ok::<Seq<char>, ToolErrorView>(s) && many_arg(args, key)
            == seq![s],
        args.member(key) is None ==> text_arg(args, key) is None && number_arg(args, key) is None
            && truth_arg(args, key, default) == default && list_arg(args, key).len() == 0
            && many_arg(args, key).len() == 0 && many_numbers_arg(args, key).len() == 0,
        text_arg(args, key) is None ==> (required_arg(args, key) matches Err(
            ToolErrorView::Args(m),
        ) && text::occurs(m, key)),
        args.member(key) matches Some(v) ==> (v.unsigned() == Some(n) ==> number_arg(args, key)
            == Some(n) && many_numbers_arg(args, key) == seq![text::decimal(n as nat)] && (n
            <= usize::MAX ==> count_arg(args, key) == Some(n as usize))),
        args.member(key) == Some(JsonView::Bool(b)) ==> truth_arg(args, key, default) == b,
        args.member(key) matches Some(JsonView::Array(items)) ==> list_arg(args, key)
            == texts_among(items) && many_arg(args, key) == texts_among(items),
{
    text::lemma_occurs_between("missing required argument `"@, key, "`"@);
}

/// The texts and the numbers of a list are all of them, in order; anything else is passed by.
pub proof fn law_every_text_of_a_list_counts(items: Seq<JsonView>, v: JsonView)
    ensures
        texts_among(Seq::empty()).len() == 0 && numbers_among(Seq::empty()).len() == 0,
        v.text() matches Some(s) ==> texts_among(items.push(v)) == texts_among(items).push(s),
        v.text() is None ==> texts_among(items.push(v)) == texts_among(items),
        v.unsigned() matches Some(n) ==> numbers_among(items.push(v)) == numbers_among(items).push(
            text::decimal(n as nat),
        ),
        v.unsigned() is None ==> numbers_among(items.push(v)) == numbers_among(items),
{
    assert(items.push(v).drop_last() =~= items);
}

/// Each constraint is read from under its own key, one value or several.
pub proof fn law_each_constraint_is_read_under_its_key(args: JsonView, s: Seq<char>, n: u64)
    ensures
        args.member("status"@) == Some(JsonView::Text(s)) && args.member("type"@) is None && args.member("label"@) is None && args.member("assignee"@) is None && args.member("priority"@) is None && args.member("q"@) is None ==> filters_asked(args)
            == filters_of(seq![s], Seq::empty(), Seq::empty(), None, Seq::empty(), None),
        args.member("type"@) == Some(JsonView::Text(s)) && args.member("status"@) is None && args.member("label"@) is None && args.member("assignee"@) is None && args.member("priority"@) is None && args.member("q"@) is None ==> filters_asked(args)
            == filters_of(Seq::empty(), seq![s], Seq::empty(), None, Seq::empty(), None),
        args.member("label"@) == Some(JsonView::Text(s)) && args.member("status"@) is None && args.member("type"@) is None && args.member("assignee"@) is None && args.member("priority"@) is None && args.member("q"@) is None ==> filters_asked(args)
            == filters_of(Seq::empty(), Seq::empty(), seq![s], None, Seq::empty(), None),
        args.member("assignee"@) == Some(JsonView::Text(s)) && args.member("status"@) is None && args.member("type"@) is None && args.member("label"@) is None && args.member("priority"@) is None && args.member("q"@) is None ==> filters_asked(args)
            == filters_of(Seq::empty(), Seq::empty(), Seq::empty(), Some(s), Seq::empty(), None),
        args.member("q"@) == Some(JsonView::Text(s)) && args.member("status"@) is None && args.member("type"@) is None && args.member("label"@) is None && args.member("assignee"@) is None && args.member("priority"@) is None ==> filters_asked(args)
            == filters_of(Seq::empty(), Seq::empty(), Seq::empty(), None, Seq::empty(), Some(s)),
        (args.member("priority"@) matches Some(v) && v.unsigned() == Some(n)) && args.member("status"@) is None && args.member("type"@) is None && args.member("label"@) is None && args.member("assignee"@) is None && args.member("q"@) is None ==> filters_asked(args)
            == filters_of(
            Seq::empty(),
            Seq::empty(),
            Seq::empty(),
            None,
            seq![text::decimal(n as nat)],
            None,
        ),
{
}

/// The window is the one that is asked for, and the tools' own limit where none is.
pub proof fn law_the_window_is_the_one_asked_for(args: JsonView, n: u64)
    requires
        0 < n <= usize::MAX,
    ensures
        args.member("offset"@) matches Some(v) ==> (v.unsigned() == Some(n) ==> window_arg(
            args,
        ).offset == n),
        args.member("offset"@) is None ==> window_arg(args).offset == 0,
        args.member("limit"@) matches Some(v) ==> (v.unsigned() == Some(n) ==> window_arg(
            args,
        ).limit == Some(n as usize)),
        args.member("limit"@) matches Some(v) ==> (v.unsigned() == Some(0u64) ==> window_arg(
            args,
        ).limit is None),
        args.member("limit"@) is None ==> window_arg(args).limit == Some(TOOL_LIMIT),
        args.member("fields"@) is None ==> fields_arg(args) is None,
        args.member("fields"@) matches Some(JsonView::Array(items)) ==> fields_arg(args) == Some(
            texts_among(items),
        ),
{
}

/// A page says how many there are, how many it shows, from where on and up to how many, and in
/// which order; and it shows them.
pub proof fn law_a_page_says_what_it_is(info: PageInfo, items: Seq<JsonView>)
    ensures
        page_object(PageInfo { filters: None, ..info }, items).member("total"@) == Some(num(info.total)),
        page_object(PageInfo { filters: None, ..info }, items).member("returned"@) == Some(num(items.len() as int)),
        page_object(PageInfo { filters: None, ..info }, items).member("offset"@) == Some(num(info.window.offset as int)),
        page_object(PageInfo { filters: None, ..info }, items).member("limit"@) == Some(num(match info.window.limit {
            None => 0,
            Some(n) => n as int,
        })),
        page_object(PageInfo { filters: None, ..info }, items).member("sort"@) == Some(JsonView::Text(info.sort)),
        page_object(PageInfo { filters: None, ..info }, items).member("dir"@) == Some(JsonView::Text(info.dir)),
        page_object(PageInfo { filters: None, ..info }, items).member("source"@) == Some(JsonView::Text(Source::Files.word())),
        page_object(PageInfo { filters: None, ..info }, items).member("items"@) == Some(JsonView::Array(items)),
{
    reveal_strlit("total");
    reveal_strlit("returned");
    reveal_strlit("offset");
    reveal_strlit("limit");
    reveal_strlit("sort");
    reveal_strlit("dir");
    reveal_strlit("source");
    reveal_strlit("items");
    let p = seq![
        ("total"@, num(info.total)),
        ("returned"@, num(items.len() as int)),
        ("offset"@, num(info.window.offset as int)),
        ("limit"@, num(match info.window.limit {
            None => 0,
            Some(n) => n as int,
        })),
        ("sort"@, JsonView::Text(info.sort)),
        ("dir"@, JsonView::Text(info.dir)),
        ("source"@, JsonView::Text(Source::Files.word())),
        ("items"@, JsonView::Array(items)),
    ];
    assert(page_object(PageInfo { filters: None, ..info }, items) == obj(p));
    assert(p[0].0 == "total"@ && p[1].0 == "returned"@ && p[2].0 == "offset"@ && p[3].0 == "limit"@ && p[4].0 == "sort"@ && p[5].0 == "dir"@ && p[6].0 == "source"@ && p[7].0 == "items"@);
    assert("total"@[0] != "limit"@[0]);
    assert("total"@[0] != "items"@[0]);
    assert("offset"@[0] != "source"@[0]);
    assert("limit"@[0] != "items"@[0]);
    assert forall|i: int, j: int| 0 <= i < j < p.len() implies (#[trigger] p[i]).0 != (
    #[trigger] p[j]).0 by {
        assert(i == 0 || i == 1 || i == 2 || i == 3 || i == 4 || i == 5 || i == 6);
        assert(j == 1 || j == 2 || j == 3 || j == 4 || j == 5 || j == 6 || j == 7);
    }
    law_distinct_pairs_are_members(p);
}

/// A page of a list that was filtered says by what, beside everything else.
pub proof fn law_a_filtered_page_says_by_what(
    info: PageInfo,
    items: Seq<JsonView>,
    f: FiltersView,
)
    ensures
        page_object(PageInfo { filters: Some(f), ..info }, items).member("total"@) == Some(num(info.total)),
        page_object(PageInfo { filters: Some(f), ..info }, items).member("returned"@) == Some(num(items.len() as int)),
        page_object(PageInfo { filters: Some(f), ..info }, items).member("offset"@) == Some(num(info.window.offset as int)),
        page_object(PageInfo { filters: Some(f), ..info }, items).member("limit"@) == Some(num(match info.window.limit {
            None => 0,
            Some(n) => n as int,
        })),
        page_object(PageInfo { filters: Some(f), ..info }, items).member("sort"@) == Some(JsonView::Text(info.sort)),
        page_object(PageInfo { filters: Some(f), ..info }, items).member("dir"@) == Some(JsonView::Text(info.dir)),
        page_object(PageInfo { filters: Some(f), ..info }, items).member("source"@) == Some(JsonView::Text(Source::Files.word())),
        page_object(PageInfo { filters: Some(f), ..info }, items).member("items"@) == Some(JsonView::Array(items)),
        page_object(PageInfo { filters: Some(f), ..info }, items).member("filters"@) == Some(filters_object(f)),
{
    reveal_strlit("total");
    reveal_strlit("returned");
    reveal_strlit("offset");
    reveal_strlit("limit");
    reveal_strlit("sort");
    reveal_strlit("dir");
    reveal_strlit("source");
    reveal_strlit("items");
    reveal_strlit("filters");
    let p = seq![
        ("total"@, num(info.total)),
        ("returned"@, num(items.len() as int)),
        ("offset"@, num(info.window.offset as int)),
        ("limit"@, num(match info.window.limit {
            None => 0,
            Some(n) => n as int,
        })),
        ("sort"@, JsonView::Text(info.sort)),
        ("dir"@, JsonView::Text(info.dir)),
        ("source"@, JsonView::Text(Source::Files.word())),
        ("items"@, JsonView::Array(items)),
        ("filters"@, filters_object(f)),
    ];
    let head = seq![
        ("total"@, num(info.total)),
        ("returned"@, num(items.len() as int)),
        ("offset"@, num(info.window.offset as int)),
        ("limit"@, num(match info.window.limit {
            None => 0,
            Some(n) => n as int,
        })),
        ("sort"@, JsonView::Text(info.sort)),
        ("dir"@, JsonView::Text(info.dir)),
        ("source"@, JsonView::Text(Source::Files.word())),
        ("items"@, JsonView::Array(items)),
    ];
    assert(head.push(("filters"@, filters_object(f))) =~= p);
    assert(page_object(PageInfo { filters: Some(f), ..info }, items) == obj(p));
    assert(p[0].0 == "total"@ && p[1].0 == "returned"@ && p[2].0 == "offset"@ && p[3].0 == "limit"@ && p[4].0 == "sort"@ && p[5].0 == "dir"@ && p[6].0 == "source"@ && p[7].0 == "items"@ && p[8].0 == "filters"@);
    assert("total"@[0] != "limit"@[0]);
    assert("total"@[0] != "items"@[0]);
    assert("offset"@[0] != "source"@[0]);
    assert("limit"@[0] != "items"@[0]);
    assert forall|i: int, j: int| 0 <= i < j < p.len() implies (#[trigger] p[i]).0 != (
    #[trigger] p[j]).0 by {
        assert(i == 0 || i == 1 || i == 2 || i == 3 || i == 4 || i == 5 || i == 6 || i == 7);
        assert(j == 1 || j == 2 || j == 3 || j == 4 || j == 5 || j == 6 || j == 7 || j == 8);
    }
    law_distinct_pairs_are_members(p);
}

/// A list is a page of what was chosen, in the order that was asked for; it counts everything
/// that was chosen, and shows each item on the page.
pub proof fn law_a_tool_lists_what_was_chosen(
    args: JsonView,
    rows: Seq<RowView>,
    objects: Seq<Seq<(Seq<char>, JsonView)>>,
    f: FiltersView,
    chosen: Seq<int>,
    order: Order,
)
    requires
        order_named(text_arg(args, "sort"@), truth_arg(args, "desc"@, false)) == Ok::<
            Order,
            ErrorView,
        >(order),
    ensures
        list_answer(args, rows, objects, f, chosen) matches Ok(v) && v.member("total"@) == Some(
            num(chosen.len() as int),
        ) && v.member("sort"@) == Some(JsonView::Text(order.field.word())) && v.member("dir"@)
            == Some(JsonView::Text(order.dir_word())) && v.member("filters"@) == Some(
            filters_object(f),
        ) && v.member("items"@) == Some(
            JsonView::Array(
                shaped_values(
                    objects_at(
                        objects,
                        page_of(arranged(order, rows, chosen), window_arg(args)),
                    ),
                    fields_arg(args),
                    truth_arg(args, "compact"@, true),
                ),
            ),
        ),
{
    let items = shaped_values(
        objects_at(objects, page_of(arranged(order, rows, chosen), window_arg(args))),
        fields_arg(args),
        truth_arg(args, "compact"@, true),
    );
    let info = PageInfo {
        total: chosen.len() as int,
        window: window_arg(args),
        sort: order.field.word(),
        dir: order.dir_word(),
        filters: Some(f),
    };
    law_a_filtered_page_says_by_what(info, items, f);
}

/// The items of a page are those that stand at its places, in order.
pub proof fn law_a_page_shows_the_items_at_its_places(
    all: Seq<Seq<(Seq<char>, JsonView)>>,
    places: Seq<int>,
    i: int,
)
    ensures
        objects_at(all, places).len() == places.len(),
        0 <= i < places.len() ==> objects_at(all, places)[i] == all[places[i]],
{
}

/// Of the places, those whose item is named are kept, in order.
pub proof fn law_only_the_named_items_are_listed(items: Seq<int>, rows: Seq<RowView>, ids: Seq<Seq<char>>, x: int)
    ensures
        places_among(items, rows, ids).contains(x) <==> items.contains(x) && ids.contains(rows[x].id),
        places_among(items.push(x), rows, ids) == (if ids.contains(rows[x].id) {
            places_among(items, rows, ids).push(x)
        } else {
            places_among(items, rows, ids)
        }),
    decreases items.len(),
{
    assert(items.push(x).drop_last() =~= items);
    if items.len() > 0 {
        let init = items.drop_last();
        law_only_the_named_items_are_listed(init, rows, ids, x);
        let rest = places_among(init, rows, ids);
        let all = places_among(items, rows, ids);
        if all.contains(x) {
            let k = choose|k: int| 0 <= k < all.len() && all[k] == x;
            if k < rest.len() {
                assert(rest[k] == x);
                let i = choose|i: int| 0 <= i < init.len() && init[i] == x;
                assert(items[i] == x);
            } else {
                assert(items[items.len() - 1] == x);
            }
        }
        if items.contains(x) && ids.contains(rows[x].id) {
            let i = choose|i: int| 0 <= i < items.len() && items[i] == x;
            if i < init.len() {
                assert(init[i] == x);
                let k = choose|k: int| 0 <= k < rest.len() && rest[k] == x;
                assert(all[k] == x);
            } else {
                assert(all[rest.len() as int] == x);
            }
        }
    }
}

/// An item is listed as blocked when an item blocks it, or when it is asked for those too that
/// only wait for what is missing; in order.
pub proof fn law_what_is_blocked_is_listed(all: Seq<BlockedView>, b: BlockedView)
    ensures
        blocked_ids(Seq::empty(), true).len() == 0 && blocked_ids(Seq::empty(), false).len() == 0,
        blocked_ids(all.push(b), true) == blocked_ids(all, true).push(b.id),
        b.blocking.len() > 0 ==> blocked_ids(all.push(b), false) == blocked_ids(all, false).push(
            b.id,
        ),
        b.blocking.len() == 0 ==> blocked_ids(all.push(b), false) == blocked_ids(all, false),
{
    assert(all.push(b).drop_last() =~= all);
}

/// What an item waits for is found under its id.
pub proof fn law_a_wait_is_found_by_its_id(all: Seq<BlockedView>, id: Seq<char>)
    ensures
        wait_of(all, id) matches Some(b) ==> b.id == id && all.contains(b),
        wait_of(all, id) is None ==> forall|i: int|
            0 <= i < all.len() ==> (#[trigger] all[i]).id != id,
    decreases all.len(),
{
    if all.len() > 0 {
        let rest = all.drop_first();
        law_a_wait_is_found_by_its_id(rest, id);
        if all[0].id == id {
            assert(all.contains(all[0]));
        } else if let Some(b) = wait_of(rest, id) {
            let i = choose|i: int| 0 <= i < rest.len() && rest[i] == b;
            assert(all[i + 1] == b);
        } else {
            assert forall|i: int| 0 <= i < all.len() implies (#[trigger] all[i]).id != id by {
                if i > 0 {
                    assert(rest[i - 1] == all[i]);
                }
            }
        }
    }
}

/// A blocked item shows what it waits for, the missing ones also by themselves; nothing else of
/// it changes.
pub proof fn law_a_blocked_item_shows_its_waits(
    e: Seq<(Seq<char>, JsonView)>,
    b: BlockedView,
    key: Seq<char>,
)
    ensures
        lookup(with_wait(e, Some(b)), "blocked_by"@) == Some(texts(b.blocking + b.dangling)),
        lookup(with_wait(e, Some(b)), "dangling_deps"@) == Some(texts(b.dangling)),
        key != "blocked_by"@ && key != "dangling_deps"@ ==> lookup(with_wait(e, Some(b)), key)
            == lookup(e, key),
        with_wait(e, None) == e,
{
    reveal_strlit("blocked_by");
    reveal_strlit("dangling_deps");
    assert("blocked_by"@.len() != "dangling_deps"@.len());
    let one = put(e, "blocked_by"@, texts(b.blocking + b.dangling));
    law_put_then_lookup(e, "blocked_by"@, texts(b.blocking + b.dangling), key);
    law_put_then_lookup(one, "dangling_deps"@, texts(b.dangling), key);
    law_put_then_lookup(one, "dangling_deps"@, texts(b.dangling), "blocked_by"@);
}

/// Each row gets the waits of its own item.
pub proof fn law_each_row_shows_its_own_waits(
    rows: Seq<RowView>,
    objects: Seq<Seq<(Seq<char>, JsonView)>>,
    all: Seq<BlockedView>,
    i: int,
)
    requires
        0 <= i < objects.len(),
    ensures
        objects_with_waits(rows, objects, all).len() == objects.len(),
        objects_with_waits(rows, objects, all)[i] == with_wait(
            objects[i],
            wait_of(all, rows[i].id),
        ),
{
}

/// A search needs its text; its answer counts every hit and shows a page of them.
pub proof fn law_a_tool_search_counts_every_hit(
    args: JsonView,
    rows: Seq<RowView>,
    objects: Seq<Seq<(Seq<char>, JsonView)>>,
    bodies: Seq<Seq<char>>,
    needle: Seq<char>,
    order: SearchOrder,
)
    ensures
        text_arg(args, "text"@) is None ==> search_told(args, rows, objects, bodies) is Err,
        args.member("text"@) == Some(JsonView::Text(needle)) && search_order_named(
            text_arg(args, "sort"@),
            truth_arg(args, "desc"@, false),
        ) == Ok::<SearchOrder, ErrorView>(order) ==> (search_told(args, rows, objects, bodies)
            matches Ok(v) && v.member("total"@) == Some(
            num(found(order, rows, bodies, needle).len() as int),
        ) && v.member("items"@) == Some(
            JsonView::Array(
                shaped_values(
                    objects_at(
                        objects,
                        page_of(found(order, rows, bodies, needle), window_arg(args)),
                    ),
                    fields_arg(args),
                    truth_arg(args, "compact"@, true),
                ),
            ),
        )),
{
    let hits = found(order, rows, bodies, needle);
    let items = shaped_values(
        objects_at(objects, page_of(hits, window_arg(args))),
        fields_arg(args),
        truth_arg(args, "compact"@, true),
    );
    let info = PageInfo {
        total: hits.len() as int,
        window: window_arg(args),
        sort: order.sort_word(),
        dir: order.dir_word(),
        filters: None,
    };
    law_a_page_says_what_it_is(info, items);
}

proof fn lemma_with_label_holds(list: Seq<Seq<char>>, label: Seq<char>, x: Seq<char>)
    ensures
        with_label(list, label).contains(x) <==> list.contains(x) || x == label,
    decreases list.len(),
{
    let r = with_label(list, label);
    if list.len() == 0 {
        assert(r[0] == label);
    } else if list.last() == label {
        assert(list[list.len() - 1] == label);
    } else if text::precedes(label, list.last()) {
        let init = list.drop_last();
        let inner = with_label(init, label);
        lemma_with_label_holds(init, label, x);
        assert(r[r.len() - 1] == list[list.len() - 1]);
        if r.contains(x) {
            let k = choose|k: int| 0 <= k < r.len() && r[k] == x;
            if k < inner.len() {
                assert(inner[k] == x);
                if init.contains(x) {
                    let j = choose|j: int| 0 <= j < init.len() && init[j] == x;
                    assert(list[j] == x);
                }
            }
        }
        if inner.contains(x) {
            let k = choose|k: int| 0 <= k < inner.len() && inner[k] == x;
            assert(r[k] == x);
        }
        if list.contains(x) {
            let k = choose|k: int| 0 <= k < list.len() && list[k] == x;
            if k < init.len() {
                assert(init[k] == x);
            }
        }
    } else {
        assert(r[list.len() as int] == label);
        if list.contains(x) {
            let k = choose|k: int| 0 <= k < list.len() && list[k] == x;
            assert(r[k] == x);
        }
        if r.contains(x) {
            let k = choose|k: int| 0 <= k < r.len() && r[k] == x;
            if k < list.len() {
                assert(list[k] == x);
            }
        }
    }
}

/// The set of some labels holds each of them, and no other.
pub proof fn law_a_label_set_holds_its_labels(raw: Seq<Seq<char>>, x: Seq<char>)
    ensures
        label_set(raw).contains(x) <==> raw.contains(x),
    decreases raw.len(),
{
    if raw.len() > 0 {
        let init = raw.drop_last();
        law_a_label_set_holds_its_labels(init, x);
        lemma_with_label_holds(label_set(init), raw.last(), x);
        if init.contains(x) {
            let k = choose|k: int| 0 <= k < init.len() && init[k] == x;
            assert(raw[k] == x);
        }
        if raw.contains(x) {
            let k = choose|k: int| 0 <= k < raw.len() && raw[k] == x;
            if k < init.len() {
                assert(init[k] == x);
            }
        }
        assert(raw[raw.len() - 1] == raw.last());
    }
}

/// What was checked passes as a whole when each part does, in order; one refusal refuses it.
pub proof fn law_one_refusal_refuses_all(
    all: Seq<Result<Seq<char>, ErrorView>>,
    s: Seq<char>,
    e: ErrorView,
)
    ensures
        passed(Seq::empty()) == Ok::<Seq<Seq<char>>, ErrorView>(Seq::empty()),
        passed(all) matches Ok(some) ==> passed(all.push(Ok(s))) == Ok::<Seq<Seq<char>>, ErrorView>(
            some.push(s),
        ) && passed(all.push(Err(e))) == Err::<Seq<Seq<char>>, ErrorView>(e),
        passed(all) matches Err(x) ==> passed(all.push(Ok(s))) == Err::<Seq<Seq<char>>, ErrorView>(
            x,
        ) && passed(all.push(Err(e))) == Err::<Seq<Seq<char>>, ErrorView>(x),
{
    assert(all.push(Ok(s)).drop_last() =~= all);
    assert(all.push(Err(e)).drop_last() =~= all);
}

/// A new item is made of its arguments: the title, the type, the priority, the labels, what it
/// depends on, its parent, its assignee and its text, each from under its own key.
pub proof fn law_a_new_item_is_made_of_its_arguments(
    args: JsonView,
    checks: ChecksView,
    x: Seq<char>,
    p: u8,
)
    requires
        p <= 4,
    ensures
        new_asked(args, checks) matches Ok(n) ==> {
            &&& args.member("title"@) == Some(JsonView::Text(n.title))
            &&& args.member("type"@) == Some(JsonView::Text(x)) ==> (n.item_type matches Some(t)
                && t.word() == x)
            &&& args.member("type"@) is None ==> n.item_type is None
            &&& args.member("priority"@) matches Some(v) ==> (v.unsigned() == Some(p as u64)
                ==> n.priority == p)
            &&& args.member("priority"@) is None ==> n.priority == 2
            &&& args.member("assignee"@) == Some(JsonView::Text(x)) ==> n.assignee == Some(x)
            &&& args.member("assignee"@) is None ==> n.assignee is None
            &&& args.member("body"@) == Some(JsonView::Text(x)) ==> n.body == x
            &&& args.member("body"@) is None ==> n.body.len() == 0
            &&& passed(checks.deps) == Ok::<Seq<Seq<char>>, ErrorView>(n.deps)
            &&& passed(checks.labels) matches Ok(l) && (n.labels.contains(x) <==> l.contains(x))
            &&& checks.parent matches Some(r) ==> r == Ok::<Seq<char>, ErrorView>(x)
                ==> n.parent == Some(x)
            &&& checks.parent is None ==> n.parent is None
        },
        text_arg(args, "title"@) is None ==> new_asked(args, checks) is Err,
        passed(checks.labels) is Err || passed(checks.deps) is Err ==> new_asked(args, checks)
            is Err,
        checks.parent matches Some(r) ==> (r is Err ==> new_asked(args, checks) is Err),
        args.member("priority"@) matches Some(v) ==> (v.unsigned() matches Some(m) ==> (m > 4
            ==> new_asked(args, checks) is Err)),
{
    if let Ok(l) = passed(checks.labels) {
        law_a_label_set_holds_its_labels(l, x);
    }
    law_words_are_read_as_what_they_name(ItemStatus::Open, ItemType::Bug, x);
    if let Some(v) = args.member("priority"@) {
        if let Some(m) = v.unsigned() {
            law_words_are_read_as_what_they_name(
                ItemStatus::Open,
                ItemType::Bug,
                text::decimal(m as nat),
            );
            assert(priority_of(text::decimal(p as nat)) == Ok::<u8, ErrorView>(p));
            if let Ok(q) = priority_of(text::decimal(m as nat)) {
                text::law_decimal_reads_back(m as nat);
                text::law_decimal_reads_back(q as nat);
            }
        }
    }
}

/// Two arguments that are both needed are the two that stand under their keys.
pub proof fn law_both_arguments_are_needed(
    args: JsonView,
    a: Seq<char>,
    b: Seq<char>,
    known: Result<bool, ErrorView>,
)
    ensures
        two_required(args, a, b) matches Ok((x, y)) ==> args.member(a) == Some(JsonView::Text(x))
            && args.member(b) == Some(JsonView::Text(y)),
        text_arg(args, a) is Some && text_arg(args, b) is Some ==> two_required(args, a, b) is Ok,
        comment_asked(args, known) matches Ok((id, message)) ==> known == Ok::<bool, ErrorView>(
            true,
        ) && args.member("id"@) == Some(JsonView::Text(id)) && args.member("message"@) == Some(
            JsonView::Text(message),
        ),
        known == Ok::<bool, ErrorView>(true) && text_arg(args, "id"@) is Some && text_arg(
            args,
            "message"@,
        ) is Some ==> comment_asked(args, known) is Ok,
        text_arg(args, "id"@) matches Some(id) ==> (known == Ok::<bool, ErrorView>(false)
            ==> comment_asked(args, known) == Err::<(Seq<char>, Seq<char>), ToolErrorView>(
            ToolErrorView::Clove(ErrorView::NotFound { id }),
        )),
{
}

/// A dependency is refused only for an item that is missing, which is named, for one on itself,
/// for a cycle, or when it is there already.
pub proof fn law_a_dependency_is_refused_with_its_reason(
    id: Seq<char>,
    dep: Seq<char>,
    id_exists: bool,
    dep_exists: bool,
    would_cycle: bool,
    already: bool,
)
    ensures
        dep_problem(id, dep, id_exists, dep_exists, would_cycle, already) is None <==> id_exists
            && dep_exists && id != dep && !would_cycle && !already,
        dep_problem(id, dep, false, dep_exists, would_cycle, already) == Some(
            ErrorView::NotFound { id },
        ),
        dep_problem(id, dep, true, false, would_cycle, already) == Some(
            ErrorView::NotFound { id: dep },
        ),
        dep_problem(id, id, true, true, would_cycle, already) == Some(
            ErrorView::SelfDependency { id },
        ),
        id != dep ==> (dep_problem(id, dep, true, true, true, already) matches Some(
            ErrorView::DependencyCycle { from, to, cycle },
        ) && from == id && to == dep),
        id != dep ==> dep_problem(id, dep, true, true, false, true) == Some(
            ErrorView::DependencyExists { from: id, to: dep },
        ),
{
}

/// An edit says of each field that is given what it becomes, and of each label whether it is
/// added or removed; of what is not given it says nothing.
pub proof fn law_an_edit_says_what_is_given(args: JsonView, s: Seq<char>, n: u64, i: int)
    ensures
        args.member("status"@) == Some(JsonView::Text(s)) ==> edit_tokens(args).contains("status="@ + s),
        args.member("type"@) == Some(JsonView::Text(s)) ==> edit_tokens(args).contains("type="@ + s),
        args.member("title"@) == Some(JsonView::Text(s)) ==> edit_tokens(args).contains("title="@ + s),
        args.member("assignee"@) == Some(JsonView::Text(s)) ==> edit_tokens(args).contains(
            "assignee="@ + s,
        ),
        args.member("priority"@) matches Some(v) ==> (v.unsigned() == Some(n) ==> edit_tokens(
            args,
        ).contains("priority="@ + text::decimal(n as nat))),
        0 <= i < list_arg(args, "add_labels"@).len() ==> edit_tokens(args).contains(
            "labels+="@ + list_arg(args, "add_labels"@)[i],
        ),
        0 <= i < list_arg(args, "remove_labels"@).len() ==> edit_tokens(args).contains(
            "labels-="@ + list_arg(args, "remove_labels"@)[i],
        ),
        edit_tokens(args).len() == (if text_arg(args, "status"@) is Some {
            1int
        } else {
            0
        }) + (if number_arg(args, "priority"@) is Some {
            1int
        } else {
            0
        }) + (if text_arg(args, "type"@) is Some {
            1int
        } else {
            0
        }) + (if text_arg(args, "title"@) is Some {
            1int
        } else {
            0
        }) + (if args.member("assignee"@) is Some {
            1int
        } else {
            0
        }) + list_arg(args, "add_labels"@).len() + list_arg(args, "remove_labels"@).len(),
{
    let t = edit_tokens(args);
    let a = assigned("status="@, text_arg(args, "status"@));
    let b = assigned("priority="@, number_word(number_arg(args, "priority"@)));
    let c = assigned("type="@, text_arg(args, "type"@));
    let d = assigned("title="@, text_arg(args, "title"@));
    let e = assigned("assignee="@, assignee_arg(args));
    let f = each_assigned("labels+="@, list_arg(args, "add_labels"@));
    let g = each_assigned("labels-="@, list_arg(args, "remove_labels"@));
    assert(t == a + b + c + d + e + f + g);
    let ab = a.len() + b.len();
    let abc = ab + c.len();
    let abcd = abc + d.len();
    let abcde = abcd + e.len();
    assert(a.len() > 0 ==> t[0] == a[0]);
    assert(b.len() > 0 ==> t[a.len() as int] == b[0]);
    assert(c.len() > 0 ==> t[ab as int] == c[0]);
    assert(d.len() > 0 ==> t[abc as int] == d[0]);
    assert(e.len() > 0 ==> t[abcd as int] == e[0]);
    assert(0 <= i < f.len() ==> t[abcde + i] == f[i]);
    assert(0 <= i < g.len() ==> t[abcde + f.len() + i] == g[i]);
}

/// A tool that lists shows what its filters keep; the ready ones of these, and the blocked ones
/// with what they wait for, are picked out by their ids.
pub proof fn law_a_tool_lists_what_its_filters_keep(
    args: JsonView,
    rows: Seq<RowView>,
    objects: Seq<Seq<(Seq<char>, JsonView)>>,
    ready: Seq<Seq<char>>,
    all: Seq<BlockedView>,
    f: FiltersView,
)
    ensures
        filters_asked(args) is Err ==> list_told(args, rows, objects) is Err && ready_told(
            args,
            rows,
            objects,
            ready,
        ) is Err && blocked_told(args, rows, objects, all) is Err,
        filters_asked(args) == Ok::<FiltersView, ErrorView>(f) ==> list_told(args, rows, objects)
            == list_answer(args, rows, objects, f, kept_places(f, rows, rows.len() as int)),
        filters_asked(args) == Ok::<FiltersView, ErrorView>(f) ==> ready_told(
            args,
            rows,
            objects,
            ready,
        ) == list_answer(
            args,
            rows,
            objects,
            f,
            places_among(kept_places(f, rows, rows.len() as int), rows, ready),
        ),
        filters_asked(args) == Ok::<FiltersView, ErrorView>(f) && args.member("include_warnings"@)
            == Some(JsonView::Bool(true)) ==> blocked_told(args, rows, objects, all) == list_answer(
            args,
            rows,
            objects_with_waits(rows, objects, all),
            f,
            places_among(
                kept_places(f, rows, rows.len() as int),
                rows,
                blocked_ids(all, true),
            ),
        ),
        filters_asked(args) == Ok::<FiltersView, ErrorView>(f) && args.member("include_warnings"@)
            is None ==> blocked_told(args, rows, objects, all) == list_answer(
            args,
            rows,
            objects_with_waits(rows, objects, all),
            f,
            places_among(
                kept_places(f, rows, rows.len() as int),
                rows,
                blocked_ids(all, false),
            ),
        ),
{
}

/// An item is shown with the fields that are asked for, compact unless it is asked to be whole.
pub proof fn law_a_tool_shows_an_item_as_asked(args: JsonView, s: ShownView)
    ensures
        args.member("compact"@) is None && args.member("fields"@) is None ==> show_told(args, s)
            == JsonView::Object(shaped(full_item(s), None, true)),
        args.member("compact"@) == Some(JsonView::Bool(false)) && args.member("fields"@) is None
            ==> show_told(args, s) == JsonView::Object(shaped(full_item(s), None, false)),
        args.member("fields"@) matches Some(JsonView::Array(items)) ==> (args.member("compact"@)
            is None ==> show_told(args, s) == JsonView::Object(
            shaped(full_item(s), Some(texts_among(items)), true),
        )),
{
}

/// A tool that wrote an item answers with its id and its file.
pub proof fn law_a_written_item_is_told_of(id: Seq<char>, path: Seq<char>)
    ensures
        written_object(id, path).member("id"@) == Some(JsonView::Text(id)),
        written_object(id, path).member("path"@) == Some(JsonView::Text(path)),
{
    reveal_strlit("id");
    reveal_strlit("path");
    let p = seq![
        ("id"@, JsonView::Text(id)),
        ("path"@, JsonView::Text(path)),
    ];
    assert(written_object(id, path) == obj(p));
    assert(p[0].0 == "id"@ && p[1].0 == "path"@);
    law_distinct_pairs_are_members(p);
}

/// A tree is as deep, and statistics are as long, as is asked for; epics are left out only when
/// that is asked for.
pub proof fn law_trees_and_statistics_are_as_asked(args: JsonView, n: u64)
    requires
        n <= usize::MAX,
    ensures
        args.member("depth"@) matches Some(v) ==> (v.unsigned() == Some(n) ==> depth_arg(args) == n),
        args.member("depth"@) is None ==> depth_arg(args) == 5,
        args.member("top"@) matches Some(v) ==> (v.unsigned() == Some(n) ==> stats_asked(args).top
            == n),
        args.member("top"@) is None ==> stats_asked(args).top == 10,
        args.member("no_epics"@) is None ==> stats_asked(args).include_epics,
        args.member("no_epics"@) == Some(JsonView::Bool(true)) ==> !stats_asked(args).include_epics,
        args.member("no_epics"@) == Some(JsonView::Bool(false)) ==> stats_asked(args).include_epics,
{
}

} // verus!
