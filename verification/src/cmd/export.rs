//! `clove export <json|jsonl> [--out FILE]`.

use vstd::prelude::*;

use crate::cli::{ExportFormat, Order, SortField};
use crate::cmd::import::{
    export_text_read, law_an_export_is_restored_up_to_its_fractions,
    law_an_ordered_export_is_restored, law_lines_are_read_up_to_their_fractions,
    lemma_one_line_is_trimmed, lines_read, ReadView,
};
use crate::exit::ExitCode;
use crate::item_json::{computed, export_object, extended, BlockView, Item, ItemView};
use crate::json::{law_distinct_pairs_are_members, num, number, obj, object, string, Json, JsonView};
use crate::json_text::{
    alike, json_compact, json_parsed, lemma_ordered_items_at, one_line, ordered, ordered_items,
    reads_like, shallow,
};
use crate::lines::{file_text, law_written_lines_are_read_back, write_lines};
use crate::output::{
    law_a_success_carries_its_data, pairs, success, success_envelope, Out, OutView, OutputFormat,
};
use crate::plugin::CURRENT_SCHEMA_VERSION;
use crate::ranking::{
    arrange, arranged, as_places, kept_places, keys_of, law_ranking_is_an_ordered_rearrangement,
    listed, ranked,
};
use crate::text;
use crate::view::{keeps, page_of, FiltersView, Page, Row, RowView};

verus! {

/// The built-in providers.
pub open spec fn is_native(provider: Seq<char>) -> bool {
    provider == "json"@ || provider == "jsonl"@
}

/// Is this a built-in export provider? Any other is a `clove-export-<provider>` plugin.
pub fn is_builtin(provider: &str) -> (r: bool)
    ensures
        r == is_native(provider@),
{
    text::same(provider, "json") || text::same(provider, "jsonl")
}

/// The format of a built-in provider.
pub open spec fn provider_format(provider: Seq<char>) -> Option<ExportFormat> {
    if provider == "json"@ {
        Some(ExportFormat::Json)
    } else if provider == "jsonl"@ {
        Some(ExportFormat::Jsonl)
    } else {
        None
    }
}

/// The format of a built-in provider.
pub fn format_of_provider(provider: &str) -> (r: Option<ExportFormat>)
    ensures
        r == provider_format(provider@),
{
    if text::same(provider, "json") {
        Some(ExportFormat::Json)
    } else if text::same(provider, "jsonl") {
        Some(ExportFormat::Jsonl)
    } else {
        None
    }
}

/// How the arguments of a built-in provider failed to parse.
#[derive(Debug, Clone, Copy, PartialEq, Eq, Structural)]
pub enum ArgsProblem {
    /// Help or the version was asked for.
    Shown,
    /// An argument is unknown: perhaps a global flag in the wrong place.
    Unknown,
    Other,
}

/// What is added to the parser's own message.
pub open spec fn args_note(problem: ArgsProblem, mux: Seq<char>, provider: Seq<char>) -> Seq<OutView> {
    if problem == ArgsProblem::Unknown {
        seq![
            OutView::Note(
                "\nnote: clove global flags (--format, --color, --quiet, …) must come before the provider, e.g. `clove "@
                    + mux + " --format json "@ + provider + " …`"@,
            ),
        ]
    } else {
        Seq::empty()
    }
}

/// What comes of arguments that do not parse. A global flag behind the provider reads as
/// an unknown argument, so the note says where it goes. Help is a success.
pub fn args_failed(problem: ArgsProblem, mux: &str, provider: &str) -> (r: (Vec<Out>, ExitCode))
    ensures
        r.0.deep_view() == args_note(problem, mux@, provider@),
        r.1 == (if problem == ArgsProblem::Shown {
            ExitCode::Success
        } else {
            ExitCode::Usage
        }),
{
    let mut out: Vec<Out> = Vec::new();
    if problem == ArgsProblem::Unknown {
        out.push(
            Out::Note(
                text::cat5(
                    "\nnote: clove global flags (--format, --color, --quiet, …) must come before the provider, e.g. `clove ",
                    mux,
                    " --format json ",
                    provider,
                    " …`",
                ),
            ),
        );
    }
    assert(out.deep_view() =~= args_note(problem, mux@, provider@));
    let exit = if problem == ArgsProblem::Shown {
        ExitCode::Success
    } else {
        ExitCode::Usage
    };
    (out, exit)
}

/// What an export reads of an item, besides its row.
#[derive(Debug)]
pub struct Found {
    pub item: Item,
    pub comment_count: usize,
    pub ready: bool,
    /// The open and the missing dependencies of an item that waits.
    pub blocked: Option<(Vec<String>, Vec<String>)>,
}

/// The model of a [`Found`].
pub struct FoundView {
    pub item: ItemView,
    pub comment_count: int,
    pub ready: bool,
    pub blocked: Option<BlockView>,
}

impl DeepView for Found {
    type V = FoundView;

    open spec fn deep_view(&self) -> FoundView {
        FoundView {
            item: self.item.deep_view(),
            comment_count: self.comment_count as int,
            ready: self.ready,
            blocked: match self.blocked {
                Some((b, d)) => Some(
                    BlockView { blocking: b.deep_view(), dangling: d.deep_view() },
                ),
                None => None,
            },
        }
    }
}

/// The object of an exported item: its frontmatter and the computed fields.
pub open spec fn object_of(f: FoundView) -> JsonView {
    JsonView::Object(
        extended(
            f.item.frontmatter,
            computed(f.item.body, f.comment_count, f.ready, f.blocked),
        ),
    )
}

/// The order of a list that was not asked for another.
pub open spec fn canonical() -> Order {
    Order { field: SortField::Rank, desc: false }
}

/// The places of all items: by priority, by dependency order, then by id.
pub open spec fn export_order(rows: Seq<RowView>) -> Seq<int> {
    arranged(canonical(), rows, Seq::new(rows.len(), |i: int| i))
}

/// The objects of an export, in its order.
pub open spec fn shaped(rows: Seq<RowView>, found: Seq<FoundView>) -> Seq<JsonView> {
    let at = export_order(rows);
    Seq::new(at.len(), |i: int| object_of(found[at[i]]))
}

/// Shapes every item for an export, in the order of a list.
pub fn shaped_objects(rows: &Vec<Row>, found: &Vec<Found>) -> (r: Vec<Json>)
    requires
        rows.len() == found.len(),
    ensures
        r.deep_view() == shaped(rows.deep_view(), found.deep_view()),
{
    let ghost all = found.deep_view();
    let mut chosen: Vec<usize> = Vec::new();
    let mut i: usize = 0;
    while i < rows.len()
        invariant
            i <= rows.len(),
            chosen.len() == i,
            forall|j: int| 0 <= j < i ==> #[trigger] chosen@[j] == j,
        decreases rows.len() - i,
    {
        chosen.push(i);
        i += 1;
    }
    assert(as_places(chosen@) =~= Seq::new(rows.deep_view().len(), |i: int| i));
    let places = arrange(Order { field: SortField::Rank, desc: false }, rows, &chosen);
    let ghost at = export_order(rows.deep_view());
    assert(as_places(places@) == at);
    let mut out: Vec<Json> = Vec::new();
    let mut k: usize = 0;
    while k < places.len()
        invariant
            k <= places.len(),
            rows.len() == found.len(),
            all == found.deep_view(),
            as_places(places@) == at,
            forall|j: int| 0 <= j < places.len() ==> #[trigger] places@[j] < rows.len(),
            out.len() == k,
            forall|j: int| 0 <= j < k ==> (#[trigger] out@[j]).shape() == object_of(all[at[j]]),
        decreases places.len() - k,
    {
        let n = places[k];
        assert(as_places(places@)[k as int] == n);
        let f = &found[n];
        assert(all[n as int] == f.deep_view());
        let blocked = match &f.blocked {
            Some((b, d)) => Some((b, d)),
            None => None,
        };
        out.push(export_object(&f.item, f.comment_count, f.ready, blocked));
        k += 1;
    }
    assert(out.deep_view() =~= shaped(rows.deep_view(), all));
    out
}

/// An export has every item, in the order in which a list without filters and without a
/// limit shows them.
pub proof fn law_an_export_follows_the_list(f: FiltersView, rows: Seq<RowView>)
    requires
        f.status.len() == 0,
        f.item_type.len() == 0,
        f.label.len() == 0,
        f.assignee is None,
        f.priority.len() == 0,
        f.q is None,
    ensures
        export_order(rows).len() == rows.len(),
        forall|k: int| 0 <= k < rows.len() ==> #[trigger] export_order(rows).contains(k),
        export_order(rows) == listed(f, canonical(), Page { offset: 0, limit: None }, rows),
{
    broadcast use vstd::seq_lib::to_multiset_contains;

    let chosen = Seq::new(rows.len(), |i: int| i);
    lemma_all_are_kept(f, rows, rows.len() as int);
    assert(kept_places(f, rows, rows.len() as int) =~= chosen);
    let at = export_order(rows);
    assert(page_of(at, Page { offset: 0, limit: None }) =~= at);
    let keys = keys_of(SortField::Rank, rows, chosen);
    let sorted = ranked(keys, false);
    law_ranking_is_an_ordered_rearrangement(keys, false);
    assert forall|k: int| 0 <= k < rows.len() implies #[trigger] at.contains(k) by {
        assert(keys.contains(keys[k]));
        assert(keys.to_multiset().count(keys[k]) > 0);
        assert(sorted.contains(keys[k]));
        let i = choose|i: int| 0 <= i < sorted.len() && sorted[i] == keys[k];
        assert(at[i] == k);
    }
}

proof fn lemma_all_are_kept(f: FiltersView, rows: Seq<RowView>, n: int)
    requires
        0 <= n <= rows.len(),
        forall|r: RowView| #[trigger] keeps(f, r),
    ensures
        kept_places(f, rows, n) == Seq::new(n as nat, |i: int| i),
    decreases n,
{
    if n > 0 {
        lemma_all_are_kept(f, rows, n - 1);
        assert(keeps(f, rows[n - 1]));
    }
    assert(kept_places(f, rows, n) =~= Seq::new(n as nat, |i: int| i));
}

/// The version of the export format.
pub const EXPORT_FORMAT: u64 = 1;

/// The stamp of an export, by which a later clove knows what it reads.
pub open spec fn stamp() -> JsonView {
    obj(
        seq![
            ("format"@, num(EXPORT_FORMAT as int)),
            ("item_schema"@, num(CURRENT_SCHEMA_VERSION as int)),
        ],
    )
}

/// What a `json` export says of itself: the files are its source, and the stamp.
pub open spec fn export_meta() -> JsonView {
    obj(seq![("source"@, JsonView::Text("files"@)), ("clove_export"@, stamp())])
}

fn meta_json() -> (r: Json)
    ensures
        r.shape() == export_meta(),
{
    let s: Vec<(String, Json)> = vec![
        ("format".to_owned(), number(EXPORT_FORMAT)),
        ("item_schema".to_owned(), number(CURRENT_SCHEMA_VERSION as u64)),
    ];
    assert(pairs(s@) =~= seq![
        ("format"@, num(EXPORT_FORMAT as int)),
        ("item_schema"@, num(CURRENT_SCHEMA_VERSION as int)),
    ]);
    let inner = object(s);
    let m: Vec<(String, Json)> = vec![
        ("source".to_owned(), string("files")),
        ("clove_export".to_owned(), inner),
    ];
    assert(pairs(m@) =~= seq![("source"@, JsonView::Text("files"@)), ("clove_export"@, stamp())]);
    object(m)
}

/// The export: one envelope around all items, or one bare item on each line.
pub open spec fn exported(format: ExportFormat, items: Seq<JsonView>) -> Seq<OutView> {
    match format {
        ExportFormat::Json => seq![
            OutView::Json(success(JsonView::Array(items), export_meta())),
        ],
        ExportFormat::Jsonl => Seq::new(items.len(), |i: int| OutView::Json(items[i])),
    }
}

/// The lines of an export. The files are the source of truth, never the index.
pub fn export_lines(format: ExportFormat, items: Vec<Json>) -> (r: Vec<Out>)
    ensures
        r.deep_view() == exported(format, items.deep_view()),
{
    let ghost all = items.deep_view();
    let mut out: Vec<Out> = Vec::new();
    match format {
        ExportFormat::Json => {
            proof {
                crate::json::lemma_array_shape(items);
            }
            out.push(Out::Json(success_envelope(Json::Array(items), meta_json())));
            assert(out.deep_view() =~= exported(format, all));
        },
        ExportFormat::Jsonl => {
            let mut i: usize = 0;
            while i < items.len()
                invariant
                    i <= items.len(),
                    all == items.deep_view(),
                    out.len() == i,
                    forall|j: int|
                        0 <= j < i ==> (#[trigger] out@[j]).deep_view() == OutView::Json(all[j]),
                decreases items.len() - i,
            {
                assert(all[i as int] == items@[i as int].shape());
                out.push(Out::Json(items[i].copy()));
                i += 1;
            }
            assert(out.deep_view() =~= exported(format, all));
        },
    }
    out
}

/// Is every item nested no deeper than can be read?
pub open spec fn all_readable(items: Seq<JsonView>) -> bool {
    forall|i: int| 0 <= i < items.len() ==> shallow(ordered(#[trigger] items[i]), 127)
}

/// The text of an export: its lines, each ended by a line break. An import of that text
/// brings back the items, all of them and in their order, each with the entries of its
/// objects in the order of their keys, and the same but for its fractions — if what was
/// written is nested no deeper than can be read.
pub fn export_text(format: ExportFormat, items: &Vec<Json>) -> (r: String)
    ensures
        match format {
            ExportFormat::Json => {
                let whole = success(JsonView::Array(items.deep_view()), export_meta());
                &&& r@ == file_text(seq![json_compact(ordered(whole))])
                &&& shallow(ordered(whole), 127) ==> (export_text_read(r@) matches Ok(
                    ReadView::Items(read),
                ) && alike(ordered_items(items.deep_view()), read))
            },
            ExportFormat::Jsonl => {
                &&& r@ == file_text(
                    Seq::new(
                        items.deep_view().len(),
                        |i: int| json_compact(ordered(items.deep_view()[i])),
                    ),
                )
                &&& all_readable(items.deep_view()) ==> alike(
                    ordered_items(items.deep_view()),
                    lines_read(text::text_lines(r@)).0,
                ) && lines_read(text::text_lines(r@)).1 == Seq::<Seq<char>>::empty()
            },
        },
{
    let ghost all = items.deep_view();
    match format {
        ExportFormat::Json => {
            let data = Json::Array(copy_all(items));
            let whole = success_envelope(data, meta_json());
            assert(whole.shape() == success(JsonView::Array(all), export_meta()));
            let line = whole.to_text();
            let ghost l = line@;
            let lines: Vec<String> = vec![line];
            assert(lines.deep_view() =~= seq![l]);
            let out = write_lines(&lines);
            proof {
                assert(seq![l].drop_last() =~= Seq::<Seq<char>>::empty());
                assert(file_text(seq![l].drop_last()) =~= Seq::<char>::empty());
                assert(file_text(seq![l]) =~= l + seq!['\n']);
                lemma_one_line_is_trimmed(l);
                law_an_ordered_export_is_restored(all);
                let told = ordered(success(JsonView::Array(all), export_meta()));
                if shallow(told, 127) {
                    law_an_export_is_restored_up_to_its_fractions(told, json_parsed(l)->Ok_0);
                }
            }
            out
        },
        ExportFormat::Jsonl => {
            let mut lines: Vec<String> = Vec::new();
            let mut i: usize = 0;
            while i < items.len()
                invariant
                    i <= items.len(),
                    all == items.deep_view(),
                    lines.len() == i,
                    forall|j: int|
                        0 <= j < i ==> {
                            let l = (#[trigger] lines@[j])@;
                            &&& l == json_compact(ordered(all[j]))
                            &&& one_line(l)
                            &&& shallow(ordered(all[j]), 127) ==> reads_like(l, ordered(all[j]))
                        },
                decreases items.len() - i,
            {
                assert(all[i as int] == items@[i as int].shape());
                lines.push(items[i].to_text());
                i += 1;
            }
            let ghost told = lines.deep_view();
            proof {
                assert(told =~= Seq::new(
                    all.len(),
                    |i: int| json_compact(ordered(all[i])),
                ));
                assert forall|j: int| 0 <= j < told.len() implies !(#[trigger] told[j]).contains(
                    '\n',
                ) && (told[j].len() > 0 ==> told[j].last() != '\r') by {
                    assert(told[j] == lines@[j]@);
                    assert(text::is_space('\r'));
                }
                law_written_lines_are_read_back(told);
                if all_readable(all) {
                    lemma_ordered_items_at(all);
                    assert forall|j: int| 0 <= j < told.len() implies one_line(#[trigger] told[j])
                        && reads_like(told[j], ordered_items(all)[j]) by {
                        assert(told[j] == lines@[j]@);
                        assert(shallow(ordered(all[j]), 127));
                    }
                    law_lines_are_read_up_to_their_fractions(told, ordered_items(all));
                }
            }
            write_lines(&lines)
        },
    }
}

fn copy_all(items: &Vec<Json>) -> (r: Vec<Json>)
    ensures
        r.deep_view() == items.deep_view(),
        Json::Array(r).shape() == JsonView::Array(items.deep_view()),
{
    let ghost all = items.deep_view();
    let mut out: Vec<Json> = Vec::new();
    let mut i: usize = 0;
    while i < items.len()
        invariant
            i <= items.len(),
            all == items.deep_view(),
            out.len() == i,
            forall|j: int| 0 <= j < i ==> (#[trigger] out@[j]).shape() == all[j],
        decreases items.len() - i,
    {
        assert(all[i as int] == items@[i as int].shape());
        out.push(items[i].copy());
        i += 1;
    }
    assert(out.deep_view() =~= all);
    proof {
        crate::json::lemma_array_shape(out);
    }
    out
}

/// What is said of an export that went into a file: on stderr, and to people only, so that
/// stdout stays empty.
pub fn wrote_note(format: OutputFormat, count: usize, path: &str) -> (r: Vec<Out>)
    ensures
        r.deep_view() == (if format == OutputFormat::Human {
            seq![
                OutView::Note(
                    "wrote "@ + text::decimal(count as nat) + " items to "@ + path@,
                ),
            ]
        } else {
            Seq::empty()
        }),
{
    let mut out: Vec<Out> = Vec::new();
    if format == OutputFormat::Human {
        let n = text::decimal_of(count as u64);
        out.push(Out::Note(text::cat4("wrote ", n.as_str(), " items to ", path)));
        assert(out.deep_view() =~= seq![
            OutView::Note("wrote "@ + text::decimal(count as nat) + " items to "@ + path@),
        ]);
    } else {
        assert(out.deep_view() =~= Seq::<OutView>::empty());
    }
    out
}

/// Each item is on exactly one line of a `jsonl` export, in the order of the items.
pub proof fn law_every_item_is_exported_once(items: Seq<JsonView>)
    ensures
        exported(ExportFormat::Jsonl, items).len() == items.len(),
        forall|i: int|
            0 <= i < items.len() ==> #[trigger] exported(ExportFormat::Jsonl, items)[i]
                == OutView::Json(items[i]),
        exported(ExportFormat::Json, items)[0] matches OutView::Json(_),
{
}

/// An export says which format and which schema of items it has.
pub proof fn law_an_export_is_stamped()
    ensures
        stamp().member("format"@) == Some(num(EXPORT_FORMAT as int)),
        stamp().member("item_schema"@) == Some(num(CURRENT_SCHEMA_VERSION as int)),
{
    reveal_strlit("format");
    reveal_strlit("item_schema");
    let p = seq![
        ("format"@, num(EXPORT_FORMAT as int)),
        ("item_schema"@, num(CURRENT_SCHEMA_VERSION as int)),
    ];
    assert(stamp() == obj(p));
    assert(p[0].0 == "format"@ && p[1].0 == "item_schema"@);
    law_distinct_pairs_are_members(p);
}

/// What is said of an export is that it is of the files, and its stamp.
pub proof fn law_an_export_says_where_it_is_from()
    ensures
        export_meta().member("source"@) == Some(JsonView::Text("files"@)),
        export_meta().member("clove_export"@) == Some(stamp()),
{
    reveal_strlit("source");
    reveal_strlit("clove_export");
    let p = seq![
        ("source"@, JsonView::Text("files"@)),
        ("clove_export"@, stamp()),
    ];
    assert(export_meta() == obj(p));
    assert(p[0].0 == "source"@ && p[1].0 == "clove_export"@);
    law_distinct_pairs_are_members(p);
}

/// An export in one piece carries every item, in order, and its stamp.
pub proof fn law_an_export_carries_every_item(items: Seq<JsonView>)
    ensures
        exported(ExportFormat::Json, items).len() == 1,
        exported(ExportFormat::Json, items)[0] matches OutView::Json(v) && v.member("data"@)
            == Some(JsonView::Array(items)) && v.member("_meta"@) == Some(export_meta())
            && v.member("ok"@) == Some(JsonView::Bool(true)),
        is_native("json"@) && is_native("jsonl"@),
{
    law_a_success_carries_its_data(JsonView::Array(items), export_meta());
}

/// An item is exported from the place that it has in the order, with what is computed for it.
pub proof fn law_each_item_is_exported_with_its_own_facts(
    rows: Seq<RowView>,
    found: Seq<FoundView>,
    i: int,
)
    requires
        0 <= i < export_order(rows).len(),
    ensures
        shaped(rows, found).len() == export_order(rows).len(),
        shaped(rows, found)[i] == object_of(found[export_order(rows)[i]]),
        shaped(rows, found)[i] == JsonView::Object(
            extended(
                found[export_order(rows)[i]].item.frontmatter,
                computed(
                    found[export_order(rows)[i]].item.body,
                    found[export_order(rows)[i]].comment_count,
                    found[export_order(rows)[i]].ready,
                    found[export_order(rows)[i]].blocked,
                ),
            ),
        ),
{
}

/// Only a flag that the provider does not know is answered with where global flags belong.
pub proof fn law_a_misplaced_flag_is_explained(mux: Seq<char>, provider: Seq<char>)
    ensures
        args_note(ArgsProblem::Unknown, mux, provider).len() == 1,
        args_note(ArgsProblem::Unknown, mux, provider)[0] matches OutView::Note(s) && text::ends(
            s,
            mux + " --format json "@ + provider + " …`"@,
        ),
        args_note(ArgsProblem::Shown, mux, provider).len() == 0,
        args_note(ArgsProblem::Other, mux, provider).len() == 0,
{
    if let OutView::Note(s) = args_note(ArgsProblem::Unknown, mux, provider)[0] {
        let back = mux + " --format json "@ + provider + " …`"@;
        assert(s.skip(s.len() - back.len()) =~= back);
    }
}

/// A built-in provider exports in the format that it is named after; there is no other.
pub proof fn law_a_builtin_provider_has_its_format(provider: Seq<char>)
    ensures
        provider_format("json"@) == Some(ExportFormat::Json),
        provider_format("jsonl"@) == Some(ExportFormat::Jsonl),
        provider_format(provider) is Some <==> is_native(provider),
{
    reveal_strlit("json");
    reveal_strlit("jsonl");
    assert("json"@.len() != "jsonl"@.len());
}

} // verus!
