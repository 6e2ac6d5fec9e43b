//! What the list commands (`ls`, `ready`, `blocked`, `query`, `search`) share: the page,
//! the shape of an entry, and the rendering.

use vstd::prelude::*;

use crate::json::{
    entries, index_of, insert, law_distinct_pairs_are_members, law_put_then_lookup, lookup, num,
    number, obj, object, put, string, string_or_null, strings, text_or_null, texts, Json, JsonView,
};
use crate::item_json::{project, projected};
use crate::output::{
    item_lines, jsonl_lines, law_a_success_carries_its_data, pairs, success, success_envelope, Out,
    OutView, OutputFormat,
};
use crate::registry::install::borrowed;
use crate::text;
use crate::view::{limit_in_force, Filters, FiltersView, ItemStatus, ItemType, Page, CLI_LIMIT};

verus! {

/// The page that `--offset` and `--limit` ask for: 100 entries without a limit, all of
/// them for `--limit 0`.
pub fn window(offset: Option<usize>, limit: Option<usize>) -> (r: Page)
    ensures
        r == (Page {
            offset: match offset {
                Some(n) => n,
                None => 0,
            },
            limit: limit_in_force(limit, CLI_LIMIT),
        }),
{
    let first = match offset {
        Some(n) => n,
        None => 0,
    };
    Page::new(first, limit, CLI_LIMIT)
}

// ---- Entries ------------------------------------------------------------------

/// The entries of an object: one item of a list.
pub type ListObject = Vec<(String, Json)>;

/// The model of a list.
pub open spec fn objects_view(v: Seq<ListObject>) -> Seq<Seq<(Seq<char>, JsonView)>> {
    Seq::new(v.len(), |i: int| entries(v[i]@))
}

/// An item as an index or the daemon knows it.
#[derive(Debug, PartialEq, Eq)]
pub struct LeanRow {
    pub id: String,
    pub status: String,
    pub item_type: String,
    pub priority: u8,
    pub title: String,
}

/// The model of a [`LeanRow`].
pub struct LeanView {
    pub id: Seq<char>,
    pub status: Seq<char>,
    pub item_type: Seq<char>,
    pub priority: u8,
    pub title: Seq<char>,
}

impl DeepView for LeanRow {
    type V = LeanView;

    open spec fn deep_view(&self) -> LeanView {
        LeanView {
            id: self.id@,
            status: self.status@,
            item_type: self.item_type@,
            priority: self.priority,
            title: self.title@,
        }
    }
}

/// An item with all of its frontmatter, and what blocks it, where that was asked for.
#[derive(Debug, PartialEq, Eq)]
pub struct FullRow {
    pub frontmatter: Vec<(String, Json)>,
    pub blocked_by: Option<Vec<String>>,
}

/// The model of a [`FullRow`].
pub struct FullView {
    pub frontmatter: Seq<(Seq<char>, JsonView)>,
    pub blocked_by: Option<Seq<Seq<char>>>,
}

impl DeepView for FullRow {
    type V = FullView;

    open spec fn deep_view(&self) -> FullView {
        FullView {
            frontmatter: entries(self.frontmatter@),
            blocked_by: self.blocked_by.deep_view(),
        }
    }
}

/// The rows of an answer, already cut to the page.
#[derive(Debug, PartialEq, Eq)]
pub enum Rows {
    Lean(Vec<LeanRow>),
    Full(Vec<FullRow>),
}

/// The columns that a line of a list shows.
pub open spec fn lean_entries(r: LeanView) -> Seq<(Seq<char>, JsonView)> {
    crate::json::put_all(
        seq![
            ("id"@, JsonView::Text(r.id)),
            ("status"@, JsonView::Text(r.status)),
            ("type"@, JsonView::Text(r.item_type)),
            ("priority"@, num(r.priority as int)),
            ("title"@, JsonView::Text(r.title)),
        ],
    )
}

/// The lean object. The index and the daemon share it, so that they cannot differ.
fn lean_object(r: &LeanRow) -> (o: ListObject)
    ensures
        entries(o@) == lean_entries(r.deep_view()),
{
    let mut map: Vec<(String, Json)> = Vec::new();
    let ghost c = seq![
        ("id"@, JsonView::Text(r.id@)),
        ("status"@, JsonView::Text(r.status@)),
        ("type"@, JsonView::Text(r.item_type@)),
        ("priority"@, num(r.priority as int)),
        ("title"@, JsonView::Text(r.title@)),
    ];
    proof {
        reveal_with_fuel(crate::json::put_all, 6);
        assert(entries(map@) =~= Seq::empty());
        assert(c.drop_last().drop_last().drop_last().drop_last().drop_last() =~= Seq::empty());
        assert(c.drop_last().last() == c[3]);
        assert(c.drop_last().drop_last().last() == c[2]);
        assert(c.drop_last().drop_last().drop_last().last() == c[1]);
        assert(c.drop_last().drop_last().drop_last().drop_last().last() == c[0]);
    }
    insert(&mut map, "id".to_owned(), string(r.id.as_str()));
    insert(&mut map, "status".to_owned(), string(r.status.as_str()));
    insert(&mut map, "type".to_owned(), string(r.item_type.as_str()));
    insert(&mut map, "priority".to_owned(), number(r.priority as u64));
    insert(&mut map, "title".to_owned(), string(r.title.as_str()));
    map
}

/// The entries of a full row: the frontmatter, and `blocked_by` where it is known.
pub open spec fn full_entries(r: FullView) -> Seq<(Seq<char>, JsonView)> {
    match r.blocked_by {
        Some(by) => put(r.frontmatter, "blocked_by"@, texts(by)),
        None => r.frontmatter,
    }
}

fn full_object(r: &FullRow) -> (o: ListObject)
    ensures
        entries(o@) == full_entries(r.deep_view()),
{
    let mut map = crate::item_json::copy_entries(&r.frontmatter);
    if let Some(by) = &r.blocked_by {
        insert(&mut map, "blocked_by".to_owned(), strings(by));
    }
    map
}

/// The objects of an answer.
pub open spec fn answer_objects(rows: Rows) -> Seq<Seq<(Seq<char>, JsonView)>> {
    match rows {
        Rows::Lean(v) => Seq::new(v@.len(), |i: int| lean_entries(v@[i].deep_view())),
        Rows::Full(v) => Seq::new(v@.len(), |i: int| full_entries(v@[i].deep_view())),
    }
}

/// Builds the objects of an answer: the columns of a line for a lean one, the whole
/// frontmatter for a full one.
pub fn objects_from_answer(rows: &Rows) -> (r: Vec<ListObject>)
    ensures
        objects_view(r@) == answer_objects(*rows),
{
    let mut out: Vec<ListObject> = Vec::new();
    match rows {
        Rows::Lean(v) => {
            let mut i: usize = 0;
            while i < v.len()
                invariant
                    i <= v.len(),
                    out.len() == i,
                    forall|j: int|
                        0 <= j < i ==> entries(#[trigger] out@[j]@) == lean_entries(
                            v@[j].deep_view(),
                        ),
                decreases v.len() - i,
            {
                out.push(lean_object(&v[i]));
                i += 1;
            }
            assert(objects_view(out@) =~= answer_objects(*rows));
        },
        Rows::Full(v) => {
            let mut i: usize = 0;
            while i < v.len()
                invariant
                    i <= v.len(),
                    out.len() == i,
                    forall|j: int|
                        0 <= j < i ==> entries(#[trigger] out@[j]@) == full_entries(
                            v@[j].deep_view(),
                        ),
                decreases v.len() - i,
            {
                out.push(full_object(&v[i]));
                i += 1;
            }
            assert(objects_view(out@) =~= answer_objects(*rows));
        },
    }
    out
}

/// Is this one of the columns of a lean row?
pub open spec fn is_lean_field(name: Seq<char>) -> bool {
    name == "id"@ || name == "status"@ || name == "type"@ || name == "priority"@ || name
        == "title"@
}

/// Are these all columns of a lean row?
pub open spec fn all_lean(f: Seq<Seq<char>>) -> bool {
    forall|i: int| 0 <= i < f.len() ==> is_lean_field(#[trigger] f[i])
}

/// Can a lean row show everything that is asked for? Without a projection it can; with one,
/// only when it names nothing that the row lacks.
pub open spec fn lean_enough(fields: Option<Seq<Seq<char>>>) -> bool {
    match fields {
        None => true,
        Some(f) => all_lean(f),
    }
}

/// May the index or the daemon answer?
pub fn lean_can_serve(fields: Option<&Vec<String>>) -> (r: bool)
    ensures
        r == lean_enough(fields_view(fields)),
{
    match fields {
        None => true,
        Some(f) => {
            let ghost all = f.deep_view();
            let mut i: usize = 0;
            while i < f.len()
                invariant
                    i <= f.len(),
                    all == f.deep_view(),
                    fields_view(fields) == Some(all),
                    forall|j: int| 0 <= j < i ==> is_lean_field(#[trigger] all[j]),
                decreases f.len() - i,
            {
                assert(all[i as int] == f@[i as int]@);
                let name = f[i].as_str();
                if !(text::same(name, "id") || text::same(name, "status") || text::same(
                    name,
                    "type",
                ) || text::same(name, "priority") || text::same(name, "title")) {
                    assert(!is_lean_field(all[i as int]));
                    assert(!all_lean(all));
                    return false;
                }
                i += 1;
            }
            true
        },
    }
}

/// The model of a projection.
pub open spec fn fields_view(fields: Option<&Vec<String>>) -> Option<Seq<Seq<char>>> {
    match fields {
        Some(f) => Some(f.deep_view()),
        None => None,
    }
}

proof fn lemma_lean_lookup(r: LeanView, name: Seq<char>)
    ensures
        is_lean_field(name) ==> lookup(lean_entries(r), name) is Some,
{
    let c = seq![
        ("id"@, JsonView::Text(r.id)),
        ("status"@, JsonView::Text(r.status)),
        ("type"@, JsonView::Text(r.item_type)),
        ("priority"@, num(r.priority as int)),
        ("title"@, JsonView::Text(r.title)),
    ];
    reveal_with_fuel(crate::json::put_all, 6);
    let c4 = c.drop_last();
    let c3 = c4.drop_last();
    let c2 = c3.drop_last();
    let c1 = c2.drop_last();
    assert(c1.drop_last() =~= Seq::empty());
    assert(c4.last() == c[3] && c3.last() == c[2] && c2.last() == c[1] && c1.last() == c[0]);
    let e1 = put(Seq::empty(), c[0].0, c[0].1);
    let e2 = put(e1, c[1].0, c[1].1);
    let e3 = put(e2, c[2].0, c[2].1);
    let e4 = put(e3, c[3].0, c[3].1);
    assert(lean_entries(r) == put(e4, c[4].0, c[4].1));
    crate::json::law_put_then_lookup(Seq::empty(), c[0].0, c[0].1, name);
    crate::json::law_put_then_lookup(e1, c[1].0, c[1].1, name);
    crate::json::law_put_then_lookup(e2, c[2].0, c[2].1, name);
    crate::json::law_put_then_lookup(e3, c[3].0, c[3].1, name);
    crate::json::law_put_then_lookup(e4, c[4].0, c[4].1, name);
}

/// Where the index or the daemon may answer, each field that was asked for is there.
pub proof fn law_lean_rows_hold_what_is_asked_for(r: LeanView, fields: Seq<Seq<char>>, k: int)
    requires
        lean_enough(Some(fields)),
        0 <= k < fields.len(),
    ensures
        lookup(projected(lean_entries(r), fields), fields[k]) is Some,
{
    assert(all_lean(fields));
    lemma_lean_lookup(r, fields[k]);
    crate::item_json::law_projection_keeps_the_named_fields(lean_entries(r), fields, fields[k]);
    assert(fields.contains(fields[k]));
}

// ---- Compaction ---------------------------------------------------------------

/// Is an entry left out of a compact object: the schema, a null, or an empty list?
pub open spec fn is_idle(key: Seq<char>, value: JsonView) -> bool {
    key == "schema"@ || value == JsonView::Null || value == JsonView::Array(Seq::empty())
}

/// The entries of a compact object.
pub open spec fn compacted(e: Seq<(Seq<char>, JsonView)>) -> Seq<(Seq<char>, JsonView)>
    decreases e.len(),
{
    if e.len() == 0 {
        Seq::empty()
    } else {
        let rest = compacted(e.drop_last());
        if is_idle(e.last().0, e.last().1) {
            rest
        } else {
            rest.push(e.last())
        }
    }
}

fn idle(key: &str, value: &Json) -> (r: bool)
    ensures
        r == is_idle(key@, value.shape()),
{
    if text::same(key, "schema") {
        return true;
    }
    match value {
        Json::Null => true,
        Json::Array(v) => {
            proof {
                crate::json::lemma_array_shape(*v);
                assert(v.deep_view().len() == v.len());
                if v.len() == 0 {
                    assert(v.deep_view() =~= Seq::empty());
                }
            }
            v.len() == 0
        },
        _ => false,
    }
}

/// Leaves out what says nothing: nulls, empty lists and the schema.
pub fn compact_read(map: &ListObject) -> (r: ListObject)
    ensures
        entries(r@) == compacted(entries(map@)),
{
    let ghost all = entries(map@);
    let mut out: Vec<(String, Json)> = Vec::new();
    let mut i: usize = 0;
    assert(entries(out@) =~= compacted(all.take(0)));
    while i < map.len()
        invariant
            i <= map.len(),
            all == entries(map@),
            entries(out@) == compacted(all.take(i as int)),
        decreases map.len() - i,
    {
        let ghost prev = entries(out@);
        assert(all.take(i + 1).drop_last() =~= all.take(i as int));
        assert(all[i as int] == (map@[i as int].0@, map@[i as int].1.shape()));
        if !idle(map[i].0.as_str(), &map[i].1) {
            out.push((map[i].0.clone(), map[i].1.copy()));
            assert(entries(out@) =~= prev.push(all[i as int]));
        }
        i += 1;
    }
    assert(all.take(i as int) =~= all);
    out
}

/// A compact object holds no null, no empty list and no schema, and everything else that
/// was there.
pub proof fn law_compaction_drops_only_what_says_nothing(e: Seq<(Seq<char>, JsonView)>, i: int)
    requires
        0 <= i < e.len(),
    ensures
        compacted(e).contains(e[i]) <==> !is_idle(e[i].0, e[i].1),
    decreases e.len(),
{
    lemma_compacted(e);
    if compacted(e).contains(e[i]) {
        let k = choose|k: int| 0 <= k < compacted(e).len() && compacted(e)[k] == e[i];
        assert(!is_idle(compacted(e)[k].0, compacted(e)[k].1));
    }
    if !is_idle(e[i].0, e[i].1) {
        assert(e.contains(e[i]));
    }
}

proof fn lemma_compacted(e: Seq<(Seq<char>, JsonView)>)
    ensures
        forall|k: int|
            0 <= k < compacted(e).len() ==> !is_idle(
                (#[trigger] compacted(e)[k]).0,
                compacted(e)[k].1,
            ),
        forall|x: (Seq<char>, JsonView)|
            e.contains(x) && !is_idle(x.0, x.1) ==> #[trigger] compacted(e).contains(x),
    decreases e.len(),
{
    if e.len() > 0 {
        let init = e.drop_last();
        lemma_compacted(init);
        let rest = compacted(init);
        assert forall|x: (Seq<char>, JsonView)| e.contains(x) && !is_idle(x.0, x.1) implies
            #[trigger] compacted(e).contains(x) by {
            let k = choose|k: int| 0 <= k < e.len() && e[k] == x;
            if k < init.len() {
                assert(init[k] == x);
                assert(init.contains(x));
                assert(compacted(init).contains(x));
                let j = choose|j: int| 0 <= j < rest.len() && rest[j] == x;
                assert(compacted(e)[j] == x);
            } else {
                assert(compacted(e)[rest.len() as int] == x);
            }
        }
    }
}

// ---- The echo of the filters --------------------------------------------------

/// Words of statuses.
pub open spec fn status_words(v: Seq<ItemStatus>) -> Seq<Seq<char>> {
    Seq::new(v.len(), |i: int| v[i].word())
}

/// Words of types.
pub open spec fn type_words(v: Seq<ItemType>) -> Seq<Seq<char>> {
    Seq::new(v.len(), |i: int| v[i].word())
}

/// Numbers as JSON values.
pub open spec fn numbers(v: Seq<u8>) -> JsonView {
    JsonView::Array(Seq::new(v.len(), |i: int| num(v[i] as int)))
}

/// A filter set as it is echoed: canonical, so that a reader sees what was applied.
pub open spec fn filters_object(f: FiltersView) -> JsonView {
    obj(
        seq![
            ("status"@, texts(status_words(f.status))),
            ("type"@, texts(type_words(f.item_type))),
            ("label"@, texts(f.label)),
            ("assignee"@, text_or_null(f.assignee)),
            ("priority"@, numbers(f.priority)),
            ("q"@, text_or_null(f.q)),
        ],
    )
}

/// Builds the echo of a filter set.
pub fn filters_json(f: &Filters) -> (r: Json)
    ensures
        r.shape() == filters_object(f.deep_view()),
{
    let mut statuses: Vec<String> = Vec::new();
    let mut i: usize = 0;
    while i < f.status.len()
        invariant
            i <= f.status.len(),
            statuses.len() == i,
            forall|j: int| 0 <= j < i ==> (#[trigger] statuses@[j])@ == f.status@[j].word(),
        decreases f.status.len() - i,
    {
        statuses.push(f.status[i].as_str().to_owned());
        i += 1;
    }
    assert(statuses.deep_view() =~= status_words(f.status@));
    let mut types: Vec<String> = Vec::new();
    let mut i: usize = 0;
    while i < f.item_type.len()
        invariant
            i <= f.item_type.len(),
            types.len() == i,
            forall|j: int| 0 <= j < i ==> (#[trigger] types@[j])@ == f.item_type@[j].word(),
        decreases f.item_type.len() - i,
    {
        types.push(f.item_type[i].as_str().to_owned());
        i += 1;
    }
    assert(types.deep_view() =~= type_words(f.item_type@));
    let mut nums: Vec<Json> = Vec::new();
    let mut i: usize = 0;
    while i < f.priority.len()
        invariant
            i <= f.priority.len(),
            nums.len() == i,
            forall|j: int| 0 <= j < i ==> (#[trigger] nums@[j]).shape() == num(f.priority@[j] as int),
        decreases f.priority.len() - i,
    {
        nums.push(number(f.priority[i] as u64));
        i += 1;
    }
    proof {
        crate::json::lemma_array_shape(nums);
        assert(nums.deep_view() =~= Seq::new(
            f.priority@.len(),
            |i: int| num(f.priority@[i] as int),
        ));
    }
    let v: Vec<(String, Json)> = vec![
        ("status".to_owned(), strings(&statuses)),
        ("type".to_owned(), strings(&types)),
        ("label".to_owned(), strings(&f.label)),
        ("assignee".to_owned(), string_or_null(borrowed(&f.assignee))),
        ("priority".to_owned(), Json::Array(nums)),
        ("q".to_owned(), string_or_null(borrowed(&f.q))),
    ];
    assert(pairs(v@) =~= seq![
        ("status"@, texts(status_words(f.status@))),
        ("type"@, texts(type_words(f.item_type@))),
        ("label"@, texts(f.label.deep_view())),
        ("assignee"@, text_or_null(f.assignee.deep_view())),
        ("priority"@, numbers(f.priority@)),
        ("q"@, text_or_null(f.q.deep_view())),
    ]);
    object(v)
}

// ---- Rendering ----------------------------------------------------------------

/// What is said of a list beside its entries.
#[derive(Debug, PartialEq, Eq)]
pub struct ListOpts {
    /// How many there are, whatever the page.
    pub total: usize,
    /// The page that was asked for. It is only echoed: the list is already cut.
    pub window: Page,
    pub fields: Option<Vec<String>>,
    /// Leave out nulls, empty lists and the schema?
    pub compact: bool,
    /// Which tier answered.
    pub source: String,
    /// The order in force.
    pub sort: String,
    pub dir: String,
    /// The filters in force; a search has none.
    pub filters: Option<Filters>,
    pub warnings: Vec<String>,
}

impl Default for ListOpts {
    fn default() -> (r: ListOpts)
        ensures
            r.total == 0,
            r.window == (Page { offset: 0, limit: None }),
            r.fields is None,
            !r.compact,
            r.source@ == ""@,
            r.sort@ == "rank"@,
            r.dir@ == "asc"@,
            r.filters is None,
            r.warnings@.len() == 0,
    {
        ListOpts {
            total: 0,
            window: Page { offset: 0, limit: None },
            fields: None,
            compact: false,
            source: "".to_owned(),
            sort: "rank".to_owned(),
            dir: "asc".to_owned(),
            filters: None,
            warnings: Vec::new(),
        }
    }
}

/// The model of [`ListOpts`].
pub struct OptsView {
    pub total: int,
    pub window: Page,
    pub fields: Option<Seq<Seq<char>>>,
    pub compact: bool,
    pub source: Seq<char>,
    pub sort: Seq<char>,
    pub dir: Seq<char>,
    pub filters: Option<FiltersView>,
    pub warnings: Seq<Seq<char>>,
}

impl DeepView for ListOpts {
    type V = OptsView;

    open spec fn deep_view(&self) -> OptsView {
        OptsView {
            total: self.total as int,
            window: self.window,
            fields: self.fields.deep_view(),
            compact: self.compact,
            source: self.source@,
            sort: self.sort@,
            dir: self.dir@,
            filters: self.filters.deep_view(),
            warnings: self.warnings.deep_view(),
        }
    }
}

/// An entry as it is printed.
pub open spec fn shaped(
    e: Seq<(Seq<char>, JsonView)>,
    fields: Option<Seq<Seq<char>>>,
    compact: bool,
) -> Seq<(Seq<char>, JsonView)> {
    let kept = match fields {
        Some(f) => projected(e, f),
        None => e,
    };
    if compact {
        compacted(kept)
    } else {
        kept
    }
}

/// Shapes an entry: its fields, then without what says nothing.
pub fn shape_object(map: &ListObject, fields: Option<&Vec<String>>, compact: bool) -> (r: ListObject)
    ensures
        entries(r@) == shaped(entries(map@), fields_view(fields), compact),
{
    let kept = match fields {
        Some(f) => project(map, f),
        None => crate::item_json::copy_entries(map),
    };
    if compact {
        compact_read(&kept)
    } else {
        kept
    }
}

/// The values of a list as they are printed.
pub open spec fn shaped_values(
    objects: Seq<Seq<(Seq<char>, JsonView)>>,
    fields: Option<Seq<Seq<char>>>,
    compact: bool,
) -> Seq<JsonView> {
    Seq::new(objects.len(), |i: int| JsonView::Object(shaped(objects[i], fields, compact)))
}

/// The values of a list.
pub fn shape_all(objects: &Vec<ListObject>, fields: Option<&Vec<String>>, compact: bool) -> (r: Vec<
    Json,
>)
    ensures
        r.deep_view() == shaped_values(objects_view(objects@), fields_view(fields), compact),
{
    let mut out: Vec<Json> = Vec::new();
    let mut i: usize = 0;
    while i < objects.len()
        invariant
            i <= objects.len(),
            out.len() == i,
            forall|j: int|
                0 <= j < i ==> (#[trigger] out@[j]).shape() == JsonView::Object(
                    shaped(entries(objects@[j]@), fields_view(fields), compact),
                ),
        decreases objects.len() - i,
    {
        let map = shape_object(&objects[i], fields, compact);
        proof {
            crate::json::lemma_object_shape(map);
        }
        out.push(Json::Object(map));
        i += 1;
    }
    assert(out.deep_view() =~= shaped_values(objects_view(objects@), fields_view(fields), compact));
    out
}

/// What every list says of itself.
pub open spec fn base_meta(o: OptsView, returned: int) -> Seq<(Seq<char>, JsonView)> {
    seq![
        ("limit"@, num(match o.window.limit {
            None => 0,
            Some(n) => n as int,
        })),
        ("total"@, num(o.total)),
        ("returned"@, num(returned)),
        ("offset"@, num(o.window.offset as int)),
        ("sort"@, JsonView::Text(o.sort)),
        ("dir"@, JsonView::Text(o.dir)),
        ("source"@, JsonView::Text(o.source)),
        ("warnings"@, texts(o.warnings)),
    ]
}

/// What a list says of itself: the page, the order, the source, and the filters where it
/// takes any.
pub open spec fn list_meta(o: OptsView, returned: int) -> JsonView {
    match o.filters {
        Some(f) => obj(base_meta(o, returned).push(("filters"@, filters_object(f)))),
        None => obj(base_meta(o, returned)),
    }
}

fn meta_json(o: &ListOpts, returned: usize) -> (r: Json)
    ensures
        r.shape() == list_meta(o.deep_view(), returned as int),
{
    let limit = o.window.reported_limit();
    let mut v: Vec<(String, Json)> = vec![
        ("limit".to_owned(), number(limit as u64)),
        ("total".to_owned(), number(o.total as u64)),
        ("returned".to_owned(), number(returned as u64)),
        ("offset".to_owned(), number(o.window.offset as u64)),
        ("sort".to_owned(), string(o.sort.as_str())),
        ("dir".to_owned(), string(o.dir.as_str())),
        ("source".to_owned(), string(o.source.as_str())),
        ("warnings".to_owned(), strings(&o.warnings)),
    ];
    let ghost base = base_meta(o.deep_view(), returned as int);
    assert(pairs(v@) =~= base);
    if let Some(f) = &o.filters {
        v.push(("filters".to_owned(), filters_json(f)));
        assert(pairs(v@) =~= base.push(("filters"@, filters_object(f.deep_view()))));
    }
    object(v)
}

/// The text under a key, or nothing.
pub open spec fn cell(e: Seq<(Seq<char>, JsonView)>, key: Seq<char>) -> Seq<char> {
    match lookup(e, key) {
        Some(v) => match v.text() {
            Some(s) => s,
            None => Seq::empty(),
        },
        None => Seq::empty(),
    }
}

/// The number under a key, or 0.
pub open spec fn count_cell(e: Seq<(Seq<char>, JsonView)>, key: Seq<char>) -> nat {
    match lookup(e, key) {
        Some(v) => match v.unsigned() {
            Some(n) => n as nat,
            None => 0,
        },
        None => 0,
    }
}

/// The line of an entry.
pub open spec fn entry_told(e: Seq<(Seq<char>, JsonView)>) -> Seq<char> {
    cell(e, "id"@) + "  ["@ + cell(e, "status"@) + "] p"@ + text::decimal(
        count_cell(e, "priority"@),
    ) + " "@ + cell(e, "type"@) + "  "@ + cell(e, "title"@)
}

fn cell_of(map: &ListObject, key: &str) -> (r: String)
    ensures
        r@ == cell(entries(map@), key@),
{
    match index_of(map, key) {
        Some(i) => match map[i].1.as_str() {
            Some(s) => s.to_owned(),
            None => String::new(),
        },
        None => String::new(),
    }
}

fn count_cell_of(map: &ListObject, key: &str) -> (r: u64)
    ensures
        r == count_cell(entries(map@), key@),
{
    match index_of(map, key) {
        Some(i) => match map[i].1.as_u64() {
            Some(n) => n,
            None => 0,
        },
        None => 0,
    }
}

fn entry_line(map: &ListObject) -> (r: String)
    ensures
        r@ == entry_told(entries(map@)),
{
    let id = cell_of(map, "id");
    let status = cell_of(map, "status");
    let kind = cell_of(map, "type");
    let title = cell_of(map, "title");
    let p = text::decimal_of(count_cell_of(map, "priority"));
    let head = text::cat7(
        id.as_str(),
        "  [",
        status.as_str(),
        "] p",
        p.as_str(),
        " ",
        kind.as_str(),
    );
    text::cat3(head.as_str(), "  ", title.as_str())
}

/// What is printed of a list.
pub open spec fn list_output(
    format: OutputFormat,
    objects: Seq<Seq<(Seq<char>, JsonView)>>,
    o: OptsView,
) -> Seq<OutView> {
    let values = shaped_values(objects, o.fields, o.compact);
    match format {
        OutputFormat::Human => Seq::new(
            objects.len(),
            |i: int| OutView::Text(entry_told(objects[i])),
        ),
        OutputFormat::Jsonl => item_lines(values),
        OutputFormat::Json => seq![
            OutView::Json(success(JsonView::Array(values), list_meta(o, objects.len() as int))),
        ],
    }
}

/// Renders a list. The objects are the page already.
pub fn emit(format: OutputFormat, objects: &Vec<ListObject>, opts: &ListOpts) -> (r: Vec<Out>)
    ensures
        r.deep_view() == list_output(format, objects_view(objects@), opts.deep_view()),
{
    let ghost all = objects_view(objects@);
    match format {
        OutputFormat::Human => {
            let mut out: Vec<Out> = Vec::new();
            let mut i: usize = 0;
            while i < objects.len()
                invariant
                    i <= objects.len(),
                    all == objects_view(objects@),
                    out.len() == i,
                    forall|j: int|
                        0 <= j < i ==> (#[trigger] out@[j]).deep_view() == OutView::Text(
                            entry_told(all[j]),
                        ),
                decreases objects.len() - i,
            {
                assert(all[i as int] == entries(objects@[i as int]@));
                out.push(Out::Text(entry_line(&objects[i])));
                i += 1;
            }
            assert(out.deep_view() =~= list_output(format, all, opts.deep_view()));
            out
        },
        OutputFormat::Jsonl => {
            let values = shape_all(objects, opts.fields.as_ref(), opts.compact);
            jsonl_lines(&values)
        },
        OutputFormat::Json => {
            let values = shape_all(objects, opts.fields.as_ref(), opts.compact);
            proof {
                crate::json::lemma_array_shape(values);
            }
            let line = Out::Json(
                success_envelope(Json::Array(values), meta_json(opts, objects.len())),
            );
            let ghost view = line.deep_view();
            let out: Vec<Out> = vec![line];
            assert(out.deep_view() =~= seq![view]);
            out
        },
    }
}

// ---- What a list says -----------------------------------------------------------

/// A lean row says what its item has, each under its own key.
pub proof fn law_a_lean_row_says_what_its_item_has(r: LeanView)
    ensures
        lookup(lean_entries(r), "id"@) == Some(JsonView::Text(r.id)),
        lookup(lean_entries(r), "status"@) == Some(JsonView::Text(r.status)),
        lookup(lean_entries(r), "type"@) == Some(JsonView::Text(r.item_type)),
        lookup(lean_entries(r), "priority"@) == Some(num(r.priority as int)),
        lookup(lean_entries(r), "title"@) == Some(JsonView::Text(r.title)),
{
    reveal_strlit("id");
    reveal_strlit("status");
    reveal_strlit("type");
    reveal_strlit("priority");
    reveal_strlit("title");
    let p = seq![
        ("id"@, JsonView::Text(r.id)),
        ("status"@, JsonView::Text(r.status)),
        ("type"@, JsonView::Text(r.item_type)),
        ("priority"@, num(r.priority as int)),
        ("title"@, JsonView::Text(r.title)),
    ];
    assert(JsonView::Object(lean_entries(r)) == obj(p));
    assert(p[0].0 == "id"@ && p[1].0 == "status"@ && p[2].0 == "type"@ && p[3].0 == "priority"@ && p[4].0 == "title"@);
    assert forall|i: int, j: int| 0 <= i < j < p.len() implies (#[trigger] p[i]).0 != (
    #[trigger] p[j]).0 by {
        assert(i == 0 || i == 1 || i == 2 || i == 3);
        assert(j == 1 || j == 2 || j == 3 || j == 4);
    }
    law_distinct_pairs_are_members(p);
}

/// A full row says all that its item does, and what it waits for if that is known.
pub proof fn law_a_full_row_says_what_its_item_waits_for(r: FullView, key: Seq<char>)
    ensures
        r.blocked_by matches Some(by) ==> lookup(full_entries(r), "blocked_by"@) == Some(texts(by)),
        key != "blocked_by"@ || r.blocked_by is None ==> lookup(full_entries(r), key) == lookup(
            r.frontmatter,
            key,
        ),
{
    if let Some(by) = r.blocked_by {
        law_put_then_lookup(r.frontmatter, "blocked_by"@, texts(by), key);
    }
}

/// The filters that a list was made with are told, each under its own key: the words of the
/// statuses and of the types, the labels, the assignee, the priorities and the text.
pub proof fn law_the_filters_of_a_list_are_told(f: FiltersView)
    ensures
        filters_object(f).member("status"@) matches Some(JsonView::Array(s)) && s.len()
            == f.status.len() && forall|i: int|
            0 <= i < s.len() ==> #[trigger] s[i] == JsonView::Text(f.status[i].word()),
        filters_object(f).member("type"@) matches Some(JsonView::Array(t)) && t.len()
            == f.item_type.len() && forall|i: int|
            0 <= i < t.len() ==> #[trigger] t[i] == JsonView::Text(f.item_type[i].word()),
        filters_object(f).member("label"@) matches Some(JsonView::Array(l)) && l.len()
            == f.label.len() && forall|i: int|
            0 <= i < l.len() ==> #[trigger] l[i] == JsonView::Text(f.label[i]),
        filters_object(f).member("priority"@) matches Some(JsonView::Array(p)) && p.len()
            == f.priority.len() && forall|i: int|
            0 <= i < p.len() ==> #[trigger] p[i] == num(f.priority[i] as int),
        filters_object(f).member("assignee"@) == Some(
            match f.assignee {
                Some(a) => JsonView::Text(a),
                None => JsonView::Null,
            },
        ),
        filters_object(f).member("q"@) == Some(
            match f.q {
                Some(q) => JsonView::Text(q),
                None => JsonView::Null,
            },
        ),
{
    reveal_strlit("status");
    reveal_strlit("type");
    reveal_strlit("label");
    reveal_strlit("assignee");
    reveal_strlit("priority");
    reveal_strlit("q");
    let p = seq![
        ("status"@, texts(status_words(f.status))),
        ("type"@, texts(type_words(f.item_type))),
        ("label"@, texts(f.label)),
        ("assignee"@, text_or_null(f.assignee)),
        ("priority"@, numbers(f.priority)),
        ("q"@, text_or_null(f.q)),
    ];
    assert(filters_object(f) == obj(p));
    assert(p[0].0 == "status"@ && p[1].0 == "type"@ && p[2].0 == "label"@ && p[3].0 == "assignee"@ && p[4].0 == "priority"@ && p[5].0 == "q"@);
    assert("assignee"@[0] != "priority"@[0]);
    assert forall|i: int, j: int| 0 <= i < j < p.len() implies (#[trigger] p[i]).0 != (
    #[trigger] p[j]).0 by {
        assert(i == 0 || i == 1 || i == 2 || i == 3 || i == 4);
        assert(j == 1 || j == 2 || j == 3 || j == 4 || j == 5);
    }
    law_distinct_pairs_are_members(p);
}

/// A list says how many items there are and how many it shows, from where on, in which order,
/// where they came from, what it was asked for and what was wrong.
pub proof fn law_a_list_says_what_it_is(o: OptsView, returned: int)
    ensures
        ({
            let m = list_meta(o, returned);
            &&& m.member("total"@) == Some(num(o.total))
            &&& m.member("returned"@) == Some(num(returned))
            &&& m.member("offset"@) == Some(num(o.window.offset as int))
            &&& m.member("limit"@) == Some(
                num(match o.window.limit {
                    None => 0,
                    Some(n) => n as int,
                }),
            )
            &&& m.member("sort"@) == Some(JsonView::Text(o.sort))
            &&& m.member("dir"@) == Some(JsonView::Text(o.dir))
            &&& m.member("source"@) == Some(JsonView::Text(o.source))
            &&& m.member("warnings"@) == Some(texts(o.warnings))
            &&& o.filters matches Some(f) ==> m.member("filters"@) == Some(filters_object(f))
        }),
{
    if let Some(f) = o.filters {
        reveal_strlit("limit");
        reveal_strlit("total");
        reveal_strlit("returned");
        reveal_strlit("offset");
        reveal_strlit("sort");
        reveal_strlit("dir");
        reveal_strlit("source");
        reveal_strlit("warnings");
        reveal_strlit("filters");
        let p = seq![
            ("limit"@, num(match o.window.limit {
                None => 0,
                Some(n) => n as int,
            })),
            ("total"@, num(o.total)),
            ("returned"@, num(returned)),
            ("offset"@, num(o.window.offset as int)),
            ("sort"@, JsonView::Text(o.sort)),
            ("dir"@, JsonView::Text(o.dir)),
            ("source"@, JsonView::Text(o.source)),
            ("warnings"@, texts(o.warnings)),
            ("filters"@, filters_object(f)),
        ];
        assert(p =~= base_meta(o, returned).push(("filters"@, filters_object(f))));
        assert(list_meta(o, returned) == obj(p));
        assert(p[0].0 == "limit"@ && p[1].0 == "total"@ && p[2].0 == "returned"@ && p[3].0 == "offset"@ && p[4].0 == "sort"@ && p[5].0 == "dir"@ && p[6].0 == "source"@ && p[7].0 == "warnings"@ && p[8].0 == "filters"@);
        assert("limit"@[0] != "total"@[0]);
        assert("returned"@[0] != "warnings"@[0]);
        assert("offset"@[0] != "source"@[0]);
        assert forall|i: int, j: int| 0 <= i < j < p.len() implies (#[trigger] p[i]).0 != (
        #[trigger] p[j]).0 by {
            assert(i == 0 || i == 1 || i == 2 || i == 3 || i == 4 || i == 5 || i == 6 || i == 7);
            assert(j == 1 || j == 2 || j == 3 || j == 4 || j == 5 || j == 6 || j == 7 || j == 8);
        }
        law_distinct_pairs_are_members(p);
    } else {
        reveal_strlit("limit");
        reveal_strlit("total");
        reveal_strlit("returned");
        reveal_strlit("offset");
        reveal_strlit("sort");
        reveal_strlit("dir");
        reveal_strlit("source");
        reveal_strlit("warnings");
        let p = seq![
            ("limit"@, num(match o.window.limit {
                None => 0,
                Some(n) => n as int,
            })),
            ("total"@, num(o.total)),
            ("returned"@, num(returned)),
            ("offset"@, num(o.window.offset as int)),
            ("sort"@, JsonView::Text(o.sort)),
            ("dir"@, JsonView::Text(o.dir)),
            ("source"@, JsonView::Text(o.source)),
            ("warnings"@, texts(o.warnings)),
        ];
        assert(list_meta(o, returned) == obj(p));
        assert(p[0].0 == "limit"@ && p[1].0 == "total"@ && p[2].0 == "returned"@ && p[3].0 == "offset"@ && p[4].0 == "sort"@ && p[5].0 == "dir"@ && p[6].0 == "source"@ && p[7].0 == "warnings"@);
        assert("limit"@[0] != "total"@[0]);
        assert("returned"@[0] != "warnings"@[0]);
        assert("offset"@[0] != "source"@[0]);
        assert forall|i: int, j: int| 0 <= i < j < p.len() implies (#[trigger] p[i]).0 != (
        #[trigger] p[j]).0 by {
            assert(i == 0 || i == 1 || i == 2 || i == 3 || i == 4 || i == 5 || i == 6);
            assert(j == 1 || j == 2 || j == 3 || j == 4 || j == 5 || j == 6 || j == 7);
        }
        law_distinct_pairs_are_members(p);
    }
}

/// A list shows every one of its objects, in its order: as a line for people, as a line of
/// JSON, or as an element of the data. Of each it shows the fields that were asked for, or
/// all, and with `--compact` those alone that say something.
pub proof fn law_a_list_shows_every_object(
    objects: Seq<Seq<(Seq<char>, JsonView)>>,
    o: OptsView,
    i: int,
)
    requires
        0 <= i < objects.len(),
    ensures
        list_output(OutputFormat::Human, objects, o).len() == objects.len(),
        list_output(OutputFormat::Human, objects, o)[i] == OutView::Text(entry_told(objects[i])),
        list_output(OutputFormat::Jsonl, objects, o).len() == objects.len(),
        list_output(OutputFormat::Jsonl, objects, o)[i] matches OutView::Json(v) && v.member(
            "data"@,
        ) == Some(JsonView::Object(shaped(objects[i], o.fields, o.compact))),
        list_output(OutputFormat::Json, objects, o).len() == 1,
        list_output(OutputFormat::Json, objects, o)[0] matches OutView::Json(v) && {
            &&& v.member("data"@) matches Some(JsonView::Array(all)) && all.len() == objects.len()
                && all[i] == JsonView::Object(shaped(objects[i], o.fields, o.compact))
            &&& v.member("_meta"@) == Some(list_meta(o, objects.len() as int))
        },
{
    let values = shaped_values(objects, o.fields, o.compact);
    law_a_success_carries_its_data(JsonView::Array(values), list_meta(o, objects.len() as int));
    crate::output::law_a_line_carries_its_data(values[i]);
}

/// Of an object the fields are shown that were asked for, or all where none were; and one
/// that says something is never lost to `--compact`.
pub proof fn law_the_asked_fields_are_shown(
    e: Seq<(Seq<char>, JsonView)>,
    fields: Option<Seq<Seq<char>>>,
    key: Seq<char>,
)
    ensures
        fields is None ==> shaped(e, fields, false) == e,
        fields matches Some(f) ==> lookup(shaped(e, fields, false), key) == (if f.contains(key) {
            lookup(e, key)
        } else {
            None
        }),
        shaped(e, fields, true) == compacted(shaped(e, fields, false)),
{
    if let Some(f) = fields {
        crate::item_json::law_projection_keeps_the_named_fields(e, f, key);
    }
}

/// What compaction drops: the schema, nothing at all, and a list without elements. Every
/// other entry stays, false and zero and the empty text among them.
pub proof fn law_only_empty_entries_are_dropped(e: Seq<(Seq<char>, JsonView)>, i: int)
    requires
        0 <= i < e.len(),
    ensures
        e[i].0 != "schema"@ && e[i].1 !is Null && e[i].1 !is Array ==> compacted(e).contains(e[i]),
        e[i].1 matches JsonView::Array(a) ==> (a.len() > 0 && e[i].0 != "schema"@ ==> compacted(
            e,
        ).contains(e[i])),
        e[i].0 == "schema"@ || e[i].1 is Null ==> !compacted(e).contains(e[i]),
        e[i].1 matches JsonView::Array(a) ==> (a.len() == 0 ==> !compacted(e).contains(e[i])),
{
    law_compaction_drops_only_what_says_nothing(e, i);
    if let JsonView::Array(a) = e[i].1 {
        if a.len() == 0 {
            assert(a =~= Seq::empty());
        }
    }
}

/// The line of an object begins with its id, its status, its priority and its type, and ends
/// with its title.
pub proof fn law_a_list_line_shows_the_item(
    e: Seq<(Seq<char>, JsonView)>,
    id: Seq<char>,
    status: Seq<char>,
    priority: u64,
    item_type: Seq<char>,
    title: Seq<char>,
)
    requires
        lookup(e, "id"@) == Some(JsonView::Text(id)),
        lookup(e, "status"@) == Some(JsonView::Text(status)),
        lookup(e, "priority"@) == Some(num(priority as int)),
        lookup(e, "type"@) == Some(JsonView::Text(item_type)),
        lookup(e, "title"@) == Some(JsonView::Text(title)),
    ensures
        text::begins(
            entry_told(e),
            id + "  ["@ + status + "] p"@ + text::decimal(priority as nat) + " "@ + item_type
                + "  "@,
        ),
        text::ends(entry_told(e), "  "@ + title),
{
    let front = id + "  ["@ + status + "] p"@ + text::decimal(priority as nat) + " "@ + item_type
        + "  "@;
    let s = entry_told(e);
    assert(s =~= front + title);
    assert(s.take(front.len() as int) =~= front);
    let back = "  "@ + title;
    assert(s.skip(s.len() - back.len()) =~= back);
}

/// A lean answer serves a request if, and only if, it asks for nothing that a lean row does
/// not have.
pub proof fn law_a_lean_row_serves_what_it_has(fields: Seq<Seq<char>>, r: LeanView, k: int)
    requires
        0 <= k < fields.len(),
    ensures
        lean_enough(Some(fields)) ==> lookup(lean_entries(r), fields[k]) is Some,
        lean_enough(None),
        lookup(lean_entries(r), fields[k]) is None ==> !lean_enough(Some(fields)),
{
    law_a_lean_row_says_what_its_item_has(r);
    if lean_enough(Some(fields)) {
        assert(is_lean_field(fields[k]));
    }
}

/// What an answer holds becomes a list of as many objects, each that of its row.
pub proof fn law_every_row_of_an_answer_is_listed(rows: Rows, i: int)
    ensures
        rows matches Rows::Lean(v) ==> answer_objects(rows).len() == v.len() && (0 <= i < v.len()
            ==> answer_objects(rows)[i] == lean_entries(v[i].deep_view())),
        rows matches Rows::Full(v) ==> answer_objects(rows).len() == v.len() && (0 <= i < v.len()
            ==> answer_objects(rows)[i] == full_entries(v[i].deep_view())),
{
}

} // verus!
