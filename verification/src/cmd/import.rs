//! `clove import <json|jsonl> <file>`: the restore of clove's own export.

use vstd::prelude::*;

use crate::cli::ExportFormat;
use crate::cmd::export::{export_meta, exported, is_native, stamp, EXPORT_FORMAT};
use crate::error::{CloveError, ErrorView};
use crate::json::{
    law_distinct_pairs_are_members, law_keys_rise, law_objects_hold_their_pairs, lookup, num,
    number, obj, object, put_all, rising, strings, texts, Json, JsonView,
};
use crate::json_text::{
    alike, integral, json_parsed, law_integral_values_that_are_alike_are_equal,
    law_ordering_keeps_what_is_under_a_key, lemma_like_member, lemma_ordered_items_at, like,
    one_line, ordered, ordered_items, reads_like,
};
use crate::output::{
    law_a_success_carries_its_data, meta_with_warnings, pairs, success, success_envelope,
    warnings_meta, Out, OutView, OutputFormat,
};
use crate::plugin::CURRENT_SCHEMA_VERSION;
use crate::text;
use crate::view::has_text;

verus! {

/// Is this a built-in import provider? Any other is a `clove-import-<provider>` plugin.
pub fn is_builtin(provider: &str) -> (r: bool)
    ensures
        r == is_native(provider@),
{
    text::same(provider, "json") || text::same(provider, "jsonl")
}

/// Why a restore failed.
#[derive(Debug, PartialEq, Eq)]
pub enum ImportError {
    /// The export was made by a newer clove.
    Incompatible { message: String },
    /// The store failed.
    Core(CloveError),
    /// The source could not be read.
    Source { path: String, message: String },
    /// A record could not be read.
    Record { message: String },
}

/// The error that a failed restore is: a newer export is a validation error, a failure of
/// the store is its own, and what could not be read is an I/O error.
pub open spec fn import_problem(e: ImportError, src: Seq<char>) -> ErrorView {
    match e {
        ImportError::Incompatible { message } => ErrorView::InvalidField {
            field: "import"@,
            reason: message@,
        },
        ImportError::Core(inner) => inner.deep_view(),
        ImportError::Source { path, message } => ErrorView::Io { path: path@, source: message@ },
        ImportError::Record { message } => ErrorView::Io { path: src, source: message@ },
    }
}

/// Maps a failed restore to an error. `src` is the file that was restored.
pub fn import_err(err: ImportError, src: &str) -> (r: CloveError)
    ensures
        r.deep_view() == import_problem(err, src@),
{
    match err {
        ImportError::Incompatible { message } => CloveError::InvalidField {
            field: "import".to_owned(),
            reason: message,
        },
        ImportError::Core(inner) => inner,
        ImportError::Source { path, message } => CloveError::Io { path, source: message },
        ImportError::Record { message } => CloveError::Io { path: src.to_owned(), source: message },
    }
}

// ---- Reading an export --------------------------------------------------------

/// Is there a number under `key` that is above `known`?
pub open spec fn is_newer(v: Option<JsonView>, key: Seq<char>, known: int) -> bool {
    v matches Some(stamp) && stamp.member(key) matches Some(n) && n.unsigned() matches Some(m) && m
        > known
}

fn newer(v: Option<&Json>, key: &str, known: u64) -> (r: bool)
    ensures
        r == is_newer(crate::json::opt_shape(v), key@, known as int),
{
    match v {
        Some(stamp) => match stamp.get(key) {
            Some(n) => match n.as_u64() {
                Some(m) => m > known,
                None => false,
            },
            None => false,
        },
        None => false,
    }
}

/// The stamp of an export, if it has one.
pub open spec fn stamp_of(v: JsonView) -> Option<JsonView> {
    match v.member("_meta"@) {
        Some(meta) => meta.member("clove_export"@),
        None => None,
    }
}

/// Was an export made by a newer clove?
pub open spec fn is_from_newer(v: JsonView) -> bool {
    is_newer(stamp_of(v), "format"@, EXPORT_FORMAT as int) || is_newer(
        stamp_of(v),
        "item_schema"@,
        CURRENT_SCHEMA_VERSION as int,
    )
}

/// What a `json` export holds, or why it cannot be restored.
pub enum ReadView {
    Items(Seq<JsonView>),
    Incompatible,
    NoItems,
}

/// What a `json` export holds. One from a newer clove is refused.
pub open spec fn export_read(v: JsonView) -> ReadView {
    if is_from_newer(v) {
        ReadView::Incompatible
    } else {
        match v.member("data"@) {
            Some(JsonView::Array(items)) => ReadView::Items(items),
            _ => ReadView::NoItems,
        }
    }
}

/// Reads a `json` export: its items, as they were written.
pub fn read_export(value: &Json) -> (r: Result<Vec<Json>, ImportError>)
    ensures
        match r {
            Ok(items) => export_read(value.shape()) == ReadView::Items(items.deep_view()),
            Err(ImportError::Incompatible { message }) => export_read(value.shape())
                == ReadView::Incompatible && message@
                == "this export was made by a newer clove; upgrade clove to import it"@,
            Err(ImportError::Record { message }) => export_read(value.shape())
                == ReadView::NoItems && message@ == "the export has no `data` array"@,
            Err(_) => false,
        },
{
    let stamp: Option<&Json> = match value.get("_meta") {
        Some(meta) => meta.get("clove_export"),
        None => None,
    };
    if newer(stamp, "format", EXPORT_FORMAT) || newer(
        stamp,
        "item_schema",
        CURRENT_SCHEMA_VERSION as u64,
    ) {
        return Err(
            ImportError::Incompatible {
                message: "this export was made by a newer clove; upgrade clove to import it".to_owned(),
            },
        );
    }
    match value.get("data") {
        Some(data) => match data.as_array() {
            Some(items) => {
                let ghost all = items.deep_view();
                let mut out: Vec<Json> = Vec::new();
                let mut i: usize = 0;
                while i < items.len()
                    invariant
                        i <= items.len(),
                        all == items.deep_view(),
                        out.len() == i,
                        forall|j: int| 0 <= j < i ==> (#[trigger] out@[j]).shape() == all[j],
                    decreases items.len() - i,
                {
                    assert(all[i as int] == items@[i as int].shape());
                    out.push(items[i].copy());
                    i += 1;
                }
                assert(out.deep_view() =~= all);
                Ok(out)
            },
            None => Err(
                ImportError::Record { message: "the export has no `data` array".to_owned() },
            ),
        },
        None => Err(ImportError::Record { message: "the export has no `data` array".to_owned() }),
    }
}

/// An import reads back the items of an export, as they were written and in their order.
pub proof fn law_an_import_reads_what_an_export_wrote(items: Seq<JsonView>)
    ensures
        exported(ExportFormat::Json, items)[0] matches OutView::Json(v) && export_read(v)
            == ReadView::Items(items),
{
    reveal_strlit("v");
    reveal_strlit("ok");
    reveal_strlit("data");
    reveal_strlit("_meta");
    reveal_strlit("source");
    reveal_strlit("clove_export");
    reveal_strlit("format");
    reveal_strlit("item_schema");
    let v = success(JsonView::Array(items), export_meta());
    let p = seq![
        ("v"@, num(1)),
        ("ok"@, JsonView::Bool(true)),
        ("data"@, JsonView::Array(items)),
        ("_meta"@, export_meta()),
    ];
    assert(v == obj(p));
    assert("_meta"@.len() != "data"@.len());
    assert("format"@.len() != "item_schema"@.len());
    law_objects_hold_their_pairs(p, 2);
    law_objects_hold_their_pairs(p, 3);
    let m = seq![("source"@, JsonView::Text("files"@)), ("clove_export"@, stamp())];
    law_objects_hold_their_pairs(m, 1);
    let s = seq![
        ("format"@, num(EXPORT_FORMAT as int)),
        ("item_schema"@, num(CURRENT_SCHEMA_VERSION as int)),
    ];
    law_objects_hold_their_pairs(s, 0);
    law_objects_hold_their_pairs(s, 1);
}

/// What the text of a `json` export holds, or why it cannot be read. Blanks around it do not
/// count.
pub open spec fn export_text_read(raw: Seq<char>) -> Result<ReadView, Seq<char>> {
    match json_parsed(text::trimmed(raw)) {
        Ok(v) => Ok(export_read(v)),
        Err(e) => Err(e),
    }
}

/// Reads the text of a `json` export.
pub fn parse_export_json(raw: &str) -> (r: Result<Vec<Json>, ImportError>)
    ensures
        match r {
            Ok(items) => export_text_read(raw@) == Ok::<ReadView, Seq<char>>(
                ReadView::Items(items.deep_view()),
            ),
            Err(ImportError::Incompatible { message }) => export_text_read(raw@) == Ok::<
                ReadView,
                Seq<char>,
            >(ReadView::Incompatible) && message@
                == "this export was made by a newer clove; upgrade clove to import it"@,
            Err(ImportError::Record { message }) => match export_text_read(raw@) {
                Ok(read) => read == ReadView::NoItems && message@
                    == "the export has no `data` array"@,
                Err(e) => message@ == e,
            },
            Err(_) => false,
        },
{
    match Json::parse(text::trim(raw)) {
        Ok(v) => read_export(&v),
        Err(e) => Err(ImportError::Record { message: e }),
    }
}

/// What the lines of a `jsonl` export hold: the items, and a warning for each line that is
/// not JSON. A blank line is nothing.
pub open spec fn lines_read(lines: Seq<Seq<char>>) -> (Seq<JsonView>, Seq<Seq<char>>)
    decreases lines.len(),
{
    if lines.len() == 0 {
        (Seq::empty(), Seq::empty())
    } else {
        let (items, warnings) = lines_read(lines.drop_last());
        if text::trimmed(lines.last()).len() == 0 {
            (items, warnings)
        } else {
            match json_parsed(lines.last()) {
                Ok(v) => (items.push(v), warnings),
                Err(e) => (
                    items,
                    warnings.push("line "@ + text::decimal(lines.len()) + ": "@ + e),
                ),
            }
        }
    }
}

/// Was one of the items written by a newer clove?
pub open spec fn any_newer(items: Seq<JsonView>) -> bool {
    exists|i: int|
        0 <= i < items.len() && is_newer(
            Some(#[trigger] items[i]),
            "schema"@,
            CURRENT_SCHEMA_VERSION as int,
        )
}

fn some_newer(items: &Vec<Json>) -> (r: bool)
    ensures
        r == any_newer(items.deep_view()),
{
    let ghost all = items.deep_view();
    let mut i: usize = 0;
    while i < items.len()
        invariant
            i <= items.len(),
            all == items.deep_view(),
            forall|j: int|
                0 <= j < i ==> !is_newer(
                    Some(#[trigger] all[j]),
                    "schema"@,
                    CURRENT_SCHEMA_VERSION as int,
                ),
        decreases items.len() - i,
    {
        assert(all[i as int] == items@[i as int].shape());
        if newer(Some(&items[i]), "schema", CURRENT_SCHEMA_VERSION as u64) {
            assert(is_newer(Some(all[i as int]), "schema"@, CURRENT_SCHEMA_VERSION as int));
            return true;
        }
        i += 1;
    }
    false
}

/// Reads the text of a `jsonl` export: its items, and what could not be read. One from a
/// newer clove is refused.
pub fn parse_export_jsonl(raw: &str) -> (r: Result<(Vec<Json>, Vec<String>), ImportError>)
    ensures
        ({
            let (items, warnings) = lines_read(text::text_lines(raw@));
            match r {
                Ok((i, w)) => !any_newer(items) && i.deep_view() == items && w.deep_view()
                    == warnings,
                Err(ImportError::Incompatible { message }) => any_newer(items) && message@
                    == "this export was made by a newer clove; upgrade clove to import it"@,
                Err(_) => false,
            }
        }),
{
    let lines = text::lines(raw);
    let ghost all = lines.deep_view();
    let mut items: Vec<Json> = Vec::new();
    let mut warnings: Vec<String> = Vec::new();
    let mut i: usize = 0;
    assert(items.deep_view() =~= lines_read(all.take(0)).0);
    assert(warnings.deep_view() =~= lines_read(all.take(0)).1);
    while i < lines.len()
        invariant
            i <= lines.len(),
            all == lines.deep_view(),
            items.deep_view() == lines_read(all.take(i as int)).0,
            warnings.deep_view() == lines_read(all.take(i as int)).1,
        decreases lines.len() - i,
    {
        assert(all.take(i + 1).drop_last() =~= all.take(i as int));
        assert(all[i as int] == lines@[i as int]@);
        let ghost before = items.deep_view();
        let ghost told = warnings.deep_view();
        if text::trim(lines[i].as_str()).unicode_len() > 0 {
            match Json::parse(lines[i].as_str()) {
                Ok(v) => {
                    items.push(v);
                    assert(items.deep_view() =~= before.push(v.shape()));
                },
                Err(e) => {
                    let n = text::decimal_of(i as u64 + 1);
                    warnings.push(text::cat4("line ", n.as_str(), ": ", e.as_str()));
                    assert(warnings.deep_view() =~= told.push(
                        "line "@ + text::decimal((i + 1) as nat) + ": "@ + e@,
                    ));
                },
            }
        }
        i += 1;
    }
    assert(all.take(i as int) =~= all);
    if some_newer(&items) {
        return Err(
            ImportError::Incompatible {
                message: "this export was made by a newer clove; upgrade clove to import it".to_owned(),
            },
        );
    }
    Ok((items, warnings))
}

/// An export whose objects have their entries in the order of their keys, as it stands in a
/// text, still holds its items.
pub proof fn law_an_ordered_export_is_restored(items: Seq<JsonView>)
    ensures
        export_read(ordered(success(JsonView::Array(items), export_meta()))) == ReadView::Items(
            ordered_items(items),
        ),
{
    reveal_strlit("v");
    reveal_strlit("ok");
    reveal_strlit("data");
    reveal_strlit("_meta");
    reveal_strlit("source");
    reveal_strlit("clove_export");
    reveal_strlit("format");
    reveal_strlit("item_schema");
    let p = seq![
        ("v"@, num(1)),
        ("ok"@, JsonView::Bool(true)),
        ("data"@, JsonView::Array(items)),
        ("_meta"@, export_meta()),
    ];
    let v = success(JsonView::Array(items), export_meta());
    assert(v == obj(p));
    assert("_meta"@.len() != "data"@.len());
    assert("format"@.len() != "item_schema"@.len());
    law_objects_hold_their_pairs(p, 2);
    law_objects_hold_their_pairs(p, 3);
    law_keys_rise(p);
    law_ordering_keeps_what_is_under_a_key(put_all(p), "data"@);
    law_ordering_keeps_what_is_under_a_key(put_all(p), "_meta"@);
    let m = seq![("source"@, JsonView::Text("files"@)), ("clove_export"@, stamp())];
    law_objects_hold_their_pairs(m, 1);
    law_keys_rise(m);
    law_ordering_keeps_what_is_under_a_key(put_all(m), "clove_export"@);
    let s = seq![
        ("format"@, num(EXPORT_FORMAT as int)),
        ("item_schema"@, num(CURRENT_SCHEMA_VERSION as int)),
    ];
    law_objects_hold_their_pairs(s, 0);
    law_objects_hold_their_pairs(s, 1);
    law_keys_rise(s);
    law_ordering_keeps_what_is_under_a_key(put_all(s), "format"@);
    law_ordering_keeps_what_is_under_a_key(put_all(s), "item_schema"@);
    assert(ordered(export_meta()).member("clove_export"@) == Some(ordered(stamp())));
    assert(ordered(stamp()).member("format"@) == Some(num(EXPORT_FORMAT as int)));
    assert(ordered(stamp()).member("item_schema"@) == Some(num(CURRENT_SCHEMA_VERSION as int)));
}

/// The lines of a `jsonl` export that read back are read as the items they stand for, all of
/// them and in their order.
pub proof fn law_lines_are_read_as_their_items(lines: Seq<Seq<char>>, items: Seq<JsonView>)
    requires
        lines.len() == items.len(),
        forall|i: int|
            0 <= i < lines.len() ==> one_line(#[trigger] lines[i]) && json_parsed(lines[i]) == Ok::<
                JsonView,
                Seq<char>,
            >(items[i]),
    ensures
        lines_read(lines) == (items, Seq::<Seq<char>>::empty()),
    decreases lines.len(),
{
    if lines.len() > 0 {
        let init = lines.drop_last();
        assert forall|i: int| 0 <= i < init.len() implies one_line(#[trigger] init[i])
            && json_parsed(init[i]) == Ok::<JsonView, Seq<char>>(items.drop_last()[i]) by {
            assert(init[i] == lines[i]);
        }
        law_lines_are_read_as_their_items(init, items.drop_last());
        assert(lines[lines.len() - 1] == lines.last());
        lemma_one_line_is_trimmed(lines.last());
        assert(items.drop_last().push(items.last()) =~= items);
    } else {
        assert(items =~= Seq::empty());
    }
}

/// An export that is the same as another but for its fractions holds the same items but for
/// their fractions.
pub proof fn law_an_export_is_restored_up_to_its_fractions(v: JsonView, w: JsonView)
    requires
        like(v, w),
    ensures
        export_read(v) matches ReadView::Items(items) ==> (export_read(w) matches ReadView::Items(
            read,
        ) && alike(items, read)),
{
    lemma_like_member(v, w, "data"@);
    lemma_like_member(v, w, "_meta"@);
    if let Some(m) = v.member("_meta"@) {
        let n = w.member("_meta"@)->0;
        lemma_like_member(m, n, "clove_export"@);
        if let Some(s) = m.member("clove_export"@) {
            let t = n.member("clove_export"@)->0;
            lemma_like_member(s, t, "format"@);
            lemma_like_member(s, t, "item_schema"@);
        }
    }
    assert(is_from_newer(v) == is_from_newer(w));
}

/// The lines of a `jsonl` export that are read as their items but for the fractions give the
/// items but for their fractions, all of them and in their order, and no warning.
pub proof fn law_lines_are_read_up_to_their_fractions(
    lines: Seq<Seq<char>>,
    items: Seq<JsonView>,
)
    requires
        lines.len() == items.len(),
        forall|i: int|
            0 <= i < lines.len() ==> one_line(#[trigger] lines[i]) && reads_like(
                lines[i],
                items[i],
            ),
    ensures
        alike(items, lines_read(lines).0),
        lines_read(lines).1 == Seq::<Seq<char>>::empty(),
{
    let read = Seq::new(lines.len(), |i: int| json_parsed(lines[i])->Ok_0);
    assert forall|i: int| 0 <= i < lines.len() implies one_line(#[trigger] lines[i])
        && json_parsed(lines[i]) == Ok::<JsonView, Seq<char>>(read[i]) by {
        assert(reads_like(lines[i], items[i]));
    }
    law_lines_are_read_as_their_items(lines, read);
    assert forall|i: int| 0 <= i < items.len() implies like(#[trigger] items[i], read[i]) by {
        assert(one_line(lines[i]) && reads_like(lines[i], items[i]));
    }
}

/// There is nothing to trim from a text that has no blanks around it.
pub proof fn lemma_one_line_is_trimmed(s: Seq<char>)
    requires
        one_line(s),
    ensures
        text::trimmed(s) == s,
        text::trimmed(s + seq!['\n']) == s,
{
    assert(text::is_space('\n'));
    let t = s + seq!['\n'];
    assert(t[0] == s[0]);
    assert(t.drop_last() =~= s);
    assert(t.last() == '\n');
}

// ---- The plan of a restore ----------------------------------------------------

/// The ids that are among `existing`, or those that are not.
pub open spec fn sifted(ids: Seq<Seq<char>>, existing: Seq<Seq<char>>, there: bool) -> Seq<
    Seq<char>,
>
    decreases ids.len(),
{
    if ids.len() == 0 {
        Seq::empty()
    } else {
        let rest = sifted(ids.drop_last(), existing, there);
        if existing.contains(ids.last()) == there {
            rest.push(ids.last())
        } else {
            rest
        }
    }
}

fn sift(ids: &Vec<String>, existing: &Vec<String>, there: bool) -> (r: Vec<String>)
    ensures
        r.deep_view() == sifted(ids.deep_view(), existing.deep_view(), there),
{
    let ghost all = ids.deep_view();
    let ghost known = existing.deep_view();
    let mut out: Vec<String> = Vec::new();
    let mut i: usize = 0;
    assert(out.deep_view() =~= sifted(all.take(0), known, there));
    while i < ids.len()
        invariant
            i <= ids.len(),
            all == ids.deep_view(),
            known == existing.deep_view(),
            out.deep_view() == sifted(all.take(i as int), known, there),
        decreases ids.len() - i,
    {
        let ghost prev = out.deep_view();
        assert(all.take(i + 1).drop_last() =~= all.take(i as int));
        assert(all[i as int] == ids@[i as int]@);
        if has_text(existing, ids[i].as_str()) == there {
            out.push(ids[i].clone());
            assert(out.deep_view() =~= prev.push(all[i as int]));
        }
        i += 1;
    }
    assert(all.take(i as int) =~= all);
    out
}

/// What a restore would do: the ids.
#[derive(Debug, PartialEq, Eq)]
pub struct RestorePlan {
    pub would_create: Vec<String>,
    pub would_skip: Vec<String>,
    pub would_overwrite: Vec<String>,
}

/// Plans a restore: ids that are new are created; those that exist are skipped, or
/// overwritten where that was asked for.
pub fn plan_restore(ids: &Vec<String>, existing: &Vec<String>, overwrite: bool) -> (r: RestorePlan)
    ensures
        r.would_create.deep_view() == sifted(ids.deep_view(), existing.deep_view(), false),
        r.would_skip.deep_view() == (if overwrite {
            Seq::empty()
        } else {
            sifted(ids.deep_view(), existing.deep_view(), true)
        }),
        r.would_overwrite.deep_view() == (if overwrite {
            sifted(ids.deep_view(), existing.deep_view(), true)
        } else {
            Seq::empty()
        }),
{
    let fresh = sift(ids, existing, false);
    let known = sift(ids, existing, true);
    let none: Vec<String> = Vec::new();
    assert(none.deep_view() =~= Seq::<Seq<char>>::empty());
    if overwrite {
        RestorePlan { would_create: fresh, would_skip: none, would_overwrite: known }
    } else {
        RestorePlan { would_create: fresh, would_skip: known, would_overwrite: none }
    }
}

/// What a restore did.
#[derive(Debug, Clone, Copy, PartialEq, Eq, Structural)]
pub struct RestoreReport {
    pub created: u64,
    pub skipped: u64,
    pub overwritten: u64,
}

/// Counts what a plan does.
pub fn report_of(plan: &RestorePlan) -> (r: RestoreReport)
    ensures
        r == (RestoreReport {
            created: plan.would_create.len() as u64,
            skipped: plan.would_skip.len() as u64,
            overwritten: plan.would_overwrite.len() as u64,
        }),
{
    RestoreReport {
        created: plan.would_create.len() as u64,
        skipped: plan.would_skip.len() as u64,
        overwritten: plan.would_overwrite.len() as u64,
    }
}

/// The id of a record, if it has one.
pub open spec fn id_of(v: JsonView) -> Option<Seq<char>> {
    match v.member("id"@) {
        Some(id) => id.text(),
        None => None,
    }
}

fn record_id(v: &Json) -> (r: Option<&str>)
    ensures
        text::opt_view(r) == id_of(v.shape()),
{
    match v.get("id") {
        Some(id) => id.as_str(),
        None => None,
    }
}

/// The ids of the records that have one.
pub open spec fn ids_in(items: Seq<JsonView>) -> Seq<Seq<char>>
    decreases items.len(),
{
    if items.len() == 0 {
        Seq::empty()
    } else {
        match id_of(items.last()) {
            Some(id) => ids_in(items.drop_last()).push(id),
            None => ids_in(items.drop_last()),
        }
    }
}

/// Collects the ids of the records that have one.
pub fn record_ids(items: &Vec<Json>) -> (r: Vec<String>)
    ensures
        r.deep_view() == ids_in(items.deep_view()),
{
    let ghost all = items.deep_view();
    let mut out: Vec<String> = Vec::new();
    let mut i: usize = 0;
    assert(out.deep_view() =~= ids_in(all.take(0)));
    while i < items.len()
        invariant
            i <= items.len(),
            all == items.deep_view(),
            out.deep_view() == ids_in(all.take(i as int)),
        decreases items.len() - i,
    {
        let ghost prev = out.deep_view();
        assert(all.take(i + 1).drop_last() =~= all.take(i as int));
        assert(all[i as int] == items@[i as int].shape());
        if let Some(id) = record_id(&items[i]) {
            out.push(id.to_owned());
            assert(out.deep_view() =~= prev.push(id@));
        }
        i += 1;
    }
    assert(all.take(i as int) =~= all);
    out
}

/// The records that a restore writes: those with an id that is new, and with `overwrite`
/// those with any.
pub open spec fn to_write(
    items: Seq<JsonView>,
    existing: Seq<Seq<char>>,
    overwrite: bool,
) -> Seq<JsonView>
    decreases items.len(),
{
    if items.len() == 0 {
        Seq::empty()
    } else {
        let rest = to_write(items.drop_last(), existing, overwrite);
        match id_of(items.last()) {
            Some(id) => if overwrite || !existing.contains(id) {
                rest.push(items.last())
            } else {
                rest
            },
            None => rest,
        }
    }
}

/// Collects the records that a restore writes.
pub fn records_to_write(items: &Vec<Json>, existing: &Vec<String>, overwrite: bool) -> (r: Vec<Json>)
    ensures
        r.deep_view() == to_write(items.deep_view(), existing.deep_view(), overwrite),
{
    let ghost all = items.deep_view();
    let ghost known = existing.deep_view();
    let mut out: Vec<Json> = Vec::new();
    let mut i: usize = 0;
    assert(out.deep_view() =~= to_write(all.take(0), known, overwrite));
    while i < items.len()
        invariant
            i <= items.len(),
            all == items.deep_view(),
            known == existing.deep_view(),
            out.deep_view() == to_write(all.take(i as int), known, overwrite),
        decreases items.len() - i,
    {
        let ghost prev = out.deep_view();
        assert(all.take(i + 1).drop_last() =~= all.take(i as int));
        assert(all[i as int] == items@[i as int].shape());
        if let Some(id) = record_id(&items[i]) {
            if overwrite || !has_text(existing, id) {
                out.push(items[i].copy());
                assert(out.deep_view() =~= prev.push(all[i as int]));
            }
        }
        i += 1;
    }
    assert(all.take(i as int) =~= all);
    out
}

/// A store, by the ids of its items, after some records were written into it.
pub open spec fn stored(store: Map<Seq<char>, JsonView>, items: Seq<JsonView>) -> Map<
    Seq<char>,
    JsonView,
>
    decreases items.len(),
{
    if items.len() == 0 {
        store
    } else {
        let rest = stored(store, items.drop_last());
        match id_of(items.last()) {
            Some(id) => rest.insert(id, items.last()),
            None => rest,
        }
    }
}

/// Does the list hold exactly the ids of the store?
pub open spec fn lists_ids(existing: Seq<Seq<char>>, store: Map<Seq<char>, JsonView>) -> bool {
    forall|id: Seq<char>| #[trigger] existing.contains(id) <==> store.contains_key(id)
}

/// Do the records all have ids, and no two the same?
pub open spec fn are_identified(items: Seq<JsonView>) -> bool {
    &&& forall|i: int| 0 <= i < items.len() ==> id_of(#[trigger] items[i]) is Some
    &&& forall|i: int, j: int|
        0 <= i < j < items.len() ==> id_of(#[trigger] items[i]) != id_of(#[trigger] items[j])
}

proof fn lemma_all_new_are_written(items: Seq<JsonView>, existing: Seq<Seq<char>>)
    requires
        forall|i: int|
            0 <= i < items.len() ==> (id_of(#[trigger] items[i]) matches Some(id)
                && !existing.contains(id)),
    ensures
        to_write(items, existing, false) == items,
    decreases items.len(),
{
    if items.len() > 0 {
        let init = items.drop_last();
        assert forall|i: int| 0 <= i < init.len() implies (id_of(#[trigger] init[i]) matches Some(id)
            && !existing.contains(id)) by {
            assert(init[i] == items[i]);
        }
        lemma_all_new_are_written(init, existing);
        assert(items[items.len() - 1] == items.last());
        assert(init.push(items.last()) =~= items);
    } else {
        assert(to_write(items, existing, false) =~= items);
    }
}

proof fn lemma_nothing_known_is_written(items: Seq<JsonView>, existing: Seq<Seq<char>>)
    requires
        forall|i: int|
            0 <= i < items.len() ==> (id_of(#[trigger] items[i]) matches Some(id)
                ==> existing.contains(id)),
    ensures
        to_write(items, existing, false) == Seq::<JsonView>::empty(),
    decreases items.len(),
{
    if items.len() > 0 {
        let init = items.drop_last();
        assert forall|i: int| 0 <= i < init.len() implies (id_of(#[trigger] init[i]) matches Some(id)
            ==> existing.contains(id)) by {
            assert(init[i] == items[i]);
        }
        lemma_nothing_known_is_written(init, existing);
        assert(items[items.len() - 1] == items.last());
    }
}

proof fn lemma_stored_holds(store: Map<Seq<char>, JsonView>, items: Seq<JsonView>)
    requires
        are_identified(items),
    ensures
        forall|i: int|
            0 <= i < items.len() ==> stored(store, items).contains_key(
                id_of(#[trigger] items[i])->0,
            ) && stored(store, items)[id_of(items[i])->0] == items[i],
        forall|id: Seq<char>|
            (forall|i: int| 0 <= i < items.len() ==> id_of(#[trigger] items[i]) != Some(id)) ==> (
            #[trigger] stored(store, items).contains_key(id) <==> store.contains_key(id)) && stored(
                store,
                items,
            )[id] == store[id],
    decreases items.len(),
{
    if items.len() > 0 {
        let init = items.drop_last();
        let last = items.last();
        assert(items[items.len() - 1] == last);
        assert forall|i: int| 0 <= i < init.len() implies id_of(#[trigger] init[i]) is Some by {
            assert(init[i] == items[i]);
        }
        assert forall|i: int, j: int| 0 <= i < j < init.len() implies id_of(#[trigger] init[i])
            != id_of(#[trigger] init[j]) by {
            assert(init[i] == items[i] && init[j] == items[j]);
        }
        lemma_stored_holds(store, init);
        let after = stored(store, items);
        assert forall|i: int| 0 <= i < items.len() implies after.contains_key(
            id_of(#[trigger] items[i])->0,
        ) && after[id_of(items[i])->0] == items[i] by {
            if i < init.len() {
                assert(init[i] == items[i]);
                assert(id_of(items[i]) != id_of(items[items.len() - 1]));
            }
        }
        assert forall|id: Seq<char>|
            (forall|i: int| 0 <= i < items.len() ==> id_of(#[trigger] items[i]) != Some(id)) implies (
        #[trigger] after.contains_key(id) <==> store.contains_key(id)) && after[id]
            == store[id] by {
            assert forall|i: int| 0 <= i < init.len() implies id_of(#[trigger] init[i]) != Some(
                id,
            ) by {
                assert(init[i] == items[i]);
            }
            assert(id_of(items[items.len() - 1]) != Some(id));
            assert(stored(store, init).contains_key(id) <==> store.contains_key(id));
        }
    }
}

/// An import into a store that has none of the ids adds every item, as it was read, and
/// leaves the others alone. Importing the same items once more writes nothing.
pub proof fn law_an_import_fills_another_store(
    items: Seq<JsonView>,
    store: Map<Seq<char>, JsonView>,
    existing: Seq<Seq<char>>,
    later: Seq<Seq<char>>,
)
    requires
        are_identified(items),
        lists_ids(existing, store),
        forall|i: int| 0 <= i < items.len() ==> !store.contains_key(id_of(#[trigger] items[i])->0),
        lists_ids(later, stored(store, to_write(items, existing, false))),
    ensures
        ({
            let after = stored(store, to_write(items, existing, false));
            &&& forall|i: int|
                0 <= i < items.len() ==> after.contains_key(id_of(#[trigger] items[i])->0)
                    && after[id_of(items[i])->0] == items[i]
            &&& forall|id: Seq<char>| #[trigger]
                store.contains_key(id) ==> after.contains_key(id) && after[id] == store[id]
            &&& stored(after, to_write(items, later, false)) == after
        }),
{
    assert forall|i: int| 0 <= i < items.len() implies (id_of(#[trigger] items[i]) matches Some(id)
        && !existing.contains(id)) by {
        assert(!store.contains_key(id_of(items[i])->0));
    }
    lemma_all_new_are_written(items, existing);
    lemma_stored_holds(store, items);
    let after = stored(store, items);
    assert forall|id: Seq<char>| #[trigger] store.contains_key(id) implies after.contains_key(id)
        && after[id] == store[id] by {
        assert forall|i: int| 0 <= i < items.len() implies id_of(#[trigger] items[i]) != Some(
            id,
        ) by {
            assert(!store.contains_key(id_of(items[i])->0));
        }
        assert(after.contains_key(id) <==> store.contains_key(id));
    }
    assert forall|i: int| 0 <= i < items.len() implies (id_of(#[trigger] items[i]) matches Some(id)
        ==> later.contains(id)) by {
        assert(after.contains_key(id_of(items[i])->0));
    }
    lemma_nothing_known_is_written(items, later);
}

/// What an export wrote of one store fills another: each item is there under its id, as it
/// was exported but for its fractions, and the items that were there are unchanged. `items`
/// are the exported objects; `read` is what was read of their text: these, with their entries
/// in the order of the keys, and the same but for their fractions.
pub proof fn law_an_export_fills_another_store(
    items: Seq<JsonView>,
    read: Seq<JsonView>,
    store: Map<Seq<char>, JsonView>,
    existing: Seq<Seq<char>>,
    later: Seq<Seq<char>>,
)
    requires
        are_identified(items),
        forall|i: int|
            0 <= i < items.len() ==> (#[trigger] items[i] matches JsonView::Object(e) && rising(e)),
        alike(ordered_items(items), read),
        lists_ids(existing, store),
        forall|i: int| 0 <= i < items.len() ==> !store.contains_key(id_of(#[trigger] items[i])->0),
        lists_ids(later, stored(store, to_write(read, existing, false))),
    ensures
        ({
            let after = stored(store, to_write(read, existing, false));
            &&& forall|i: int|
                0 <= i < items.len() ==> after.contains_key(id_of(#[trigger] items[i])->0) && like(
                    ordered(items[i]),
                    after[id_of(items[i])->0],
                ) && (integral(ordered(items[i])) ==> after[id_of(items[i])->0] == ordered(
                    items[i],
                ))
            &&& forall|id: Seq<char>| #[trigger]
                store.contains_key(id) ==> after.contains_key(id) && after[id] == store[id]
            &&& stored(after, to_write(read, later, false)) == after
        }),
{
    lemma_ordered_items_at(items);
    let told = ordered_items(items);
    assert forall|i: int| 0 <= i < items.len() implies like(ordered(items[i]), #[trigger] read[i])
        && id_of(read[i]) == id_of(items[i]) by {
        assert(items[i] is Object);
        let e = items[i]->Object_0;
        law_ordering_keeps_what_is_under_a_key(e, "id"@);
        assert(items[i].member("id"@) == lookup(e, "id"@));
        assert(told[i] == ordered(items[i]));
        lemma_like_member(told[i], read[i], "id"@);
    }
    assert forall|i: int, j: int| 0 <= i < j < read.len() implies id_of(#[trigger] read[i]) != id_of(
        #[trigger] read[j],
    ) by {
        assert(id_of(items[i]) != id_of(items[j]));
    }
    assert forall|i: int| 0 <= i < read.len() implies id_of(#[trigger] read[i]) is Some by {
        assert(id_of(items[i]) is Some);
    }
    assert forall|i: int| 0 <= i < read.len() implies !store.contains_key(
        id_of(#[trigger] read[i])->0,
    ) by {
        assert(!store.contains_key(id_of(items[i])->0));
    }
    law_an_import_fills_another_store(read, store, existing, later);
    let after = stored(store, to_write(read, existing, false));
    assert forall|i: int| 0 <= i < items.len() implies after.contains_key(
        id_of(#[trigger] items[i])->0,
    ) && like(ordered(items[i]), after[id_of(items[i])->0]) && (integral(ordered(items[i]))
        ==> after[id_of(items[i])->0] == ordered(items[i])) by {
        assert(id_of(read[i]) == id_of(items[i]) && like(ordered(items[i]), read[i]));
        assert(after[id_of(read[i])->0] == read[i]);
        if integral(ordered(items[i])) {
            law_integral_values_that_are_alike_are_equal(ordered(items[i]), read[i]);
        }
    }
}

/// What is printed of a plan.
pub open spec fn plan_output(
    format: OutputFormat,
    create: Seq<Seq<char>>,
    skip: Seq<Seq<char>>,
    overwrite: Seq<Seq<char>>,
    warnings: Seq<Seq<char>>,
) -> Seq<OutView> {
    seq![
        if format == OutputFormat::Human {
            OutView::Text(
                "dry run: would create "@ + text::decimal(create.len()) + ", skip "@
                    + text::decimal(skip.len()) + ", overwrite "@ + text::decimal(overwrite.len()),
            )
        } else {
            OutView::Json(
                success(
                    obj(
                        seq![
                            ("would_create"@, texts(create)),
                            ("would_skip"@, texts(skip)),
                            ("would_overwrite"@, texts(overwrite)),
                        ],
                    ),
                    warnings_meta(warnings),
                ),
            )
        },
    ]
}

/// Renders the plan of a dry run.
pub fn emit_plan(format: OutputFormat, plan: &RestorePlan, warnings: &Vec<String>) -> (r: Vec<Out>)
    ensures
        r.deep_view() == plan_output(
            format,
            plan.would_create.deep_view(),
            plan.would_skip.deep_view(),
            plan.would_overwrite.deep_view(),
            warnings.deep_view(),
        ),
{
    let line: Out = match format {
        OutputFormat::Human => {
            let c = text::decimal_of(plan.would_create.len() as u64);
            let s = text::decimal_of(plan.would_skip.len() as u64);
            let o = text::decimal_of(plan.would_overwrite.len() as u64);
            assert(plan.would_create.deep_view().len() == plan.would_create.len());
            assert(plan.would_skip.deep_view().len() == plan.would_skip.len());
            assert(plan.would_overwrite.deep_view().len() == plan.would_overwrite.len());
            Out::Text(
                text::cat6(
                    "dry run: would create ",
                    c.as_str(),
                    ", skip ",
                    s.as_str(),
                    ", overwrite ",
                    o.as_str(),
                ),
            )
        },
        _ => {
            let v: Vec<(String, Json)> = vec![
                ("would_create".to_owned(), strings(&plan.would_create)),
                ("would_skip".to_owned(), strings(&plan.would_skip)),
                ("would_overwrite".to_owned(), strings(&plan.would_overwrite)),
            ];
            assert(pairs(v@) =~= seq![
                ("would_create"@, texts(plan.would_create.deep_view())),
                ("would_skip"@, texts(plan.would_skip.deep_view())),
                ("would_overwrite"@, texts(plan.would_overwrite.deep_view())),
            ]);
            Out::Json(success_envelope(object(v), meta_with_warnings(warnings)))
        },
    };
    let ghost view = line.deep_view();
    let out: Vec<Out> = vec![line];
    assert(out.deep_view() =~= seq![view]);
    out
}

/// What is printed of a restore.
pub open spec fn restore_output(
    format: OutputFormat,
    report: RestoreReport,
    warnings: Seq<Seq<char>>,
) -> Seq<OutView> {
    seq![
        if format == OutputFormat::Human {
            OutView::Text(
                "restored: "@ + text::decimal(report.created as nat) + " created, "@
                    + text::decimal(report.skipped as nat) + " skipped, "@ + text::decimal(
                    report.overwritten as nat,
                ) + " overwritten"@,
            )
        } else {
            OutView::Json(
                success(
                    obj(
                        seq![
                            ("created"@, num(report.created as int)),
                            ("skipped"@, num(report.skipped as int)),
                            ("overwritten"@, num(report.overwritten as int)),
                        ],
                    ),
                    warnings_meta(warnings),
                ),
            )
        },
    ]
}

/// Renders a restore.
pub fn emit_report(format: OutputFormat, report: &RestoreReport, warnings: &Vec<String>) -> (r: Vec<
    Out,
>)
    ensures
        r.deep_view() == restore_output(format, *report, warnings.deep_view()),
{
    let line: Out = match format {
        OutputFormat::Human => {
            let c = text::decimal_of(report.created);
            let s = text::decimal_of(report.skipped);
            let o = text::decimal_of(report.overwritten);
            Out::Text(
                text::cat7(
                    "restored: ",
                    c.as_str(),
                    " created, ",
                    s.as_str(),
                    " skipped, ",
                    o.as_str(),
                    " overwritten",
                ),
            )
        },
        _ => {
            let v: Vec<(String, Json)> = vec![
                ("created".to_owned(), number(report.created)),
                ("skipped".to_owned(), number(report.skipped)),
                ("overwritten".to_owned(), number(report.overwritten)),
            ];
            assert(pairs(v@) =~= seq![
                ("created"@, num(report.created as int)),
                ("skipped"@, num(report.skipped as int)),
                ("overwritten"@, num(report.overwritten as int)),
            ]);
            Out::Json(success_envelope(object(v), meta_with_warnings(warnings)))
        },
    };
    let ghost view = line.deep_view();
    let out: Vec<Out> = vec![line];
    assert(out.deep_view() =~= seq![view]);
    out
}

/// A problem of an import is told with what it is of: a file by its path, a record by the
/// source that it was read from.
pub proof fn law_an_import_problem_names_its_source(
    message: String,
    path: String,
    src: Seq<char>,
)
    ensures
        import_problem(ImportError::Record { message }, src) == (ErrorView::Io {
            path: src,
            source: message@,
        }),
        import_problem(ImportError::Source { path, message }, src) == (ErrorView::Io {
            path: path@,
            source: message@,
        }),
        import_problem(ImportError::Incompatible { message }, src) == (ErrorView::InvalidField {
            field: "import"@,
            reason: message@,
        }),
{
}

/// An export of a newer format or of newer items is refused; one that names neither, or none
/// newer, is read.
pub proof fn law_a_newer_export_is_refused(v: JsonView, stamped: JsonView, n: u64)
    requires
        stamp_of(v) == Some(stamped),
    ensures
        stamped.member("format"@) matches Some(x) ==> (x.unsigned() == Some(n) && n > EXPORT_FORMAT
            ==> export_read(v) is Incompatible),
        stamped.member("item_schema"@) matches Some(x) ==> (x.unsigned() == Some(n) && n
            > CURRENT_SCHEMA_VERSION ==> export_read(v) is Incompatible),
        stamped.member("format"@) is None && stamped.member("item_schema"@) is None
            ==> !is_from_newer(v),
        !is_from_newer(v) ==> (v.member("data"@) matches Some(JsonView::Array(items))
            ==> export_read(v) == ReadView::Items(items)),
        !is_from_newer(v) && v.member("data"@) is None ==> export_read(v) is NoItems,
{
}

/// The stamp of an export is the one in what is said of it.
pub proof fn law_the_stamp_is_in_what_is_said(v: JsonView, meta: JsonView, stamped: JsonView)
    ensures
        v.member("_meta"@) == Some(meta) && meta.member("clove_export"@) == Some(stamped)
            ==> stamp_of(v) == Some(stamped),
        v.member("_meta"@) is None ==> stamp_of(v) is None && !is_from_newer(v),
{
}

/// One more line is one more item, or a warning that names the line, or nothing if it is blank.
pub proof fn law_each_line_is_an_item_or_a_warning(lines: Seq<Seq<char>>, line: Seq<char>)
    ensures
        ({
            let (items, warnings) = lines_read(lines);
            let (more, told) = lines_read(lines.push(line));
            if text::trimmed(line).len() == 0 {
                more == items && told == warnings
            } else {
                match json_parsed(line) {
                    Ok(v) => more == items.push(v) && told == warnings,
                    Err(e) => more == items && told == warnings.push(
                        "line "@ + text::decimal(lines.len() + 1) + ": "@ + e,
                    ),
                }
            }
        }),
        lines_read(Seq::empty()).0.len() == 0 && lines_read(Seq::empty()).1.len() == 0,
{
    assert(lines.push(line).drop_last() =~= lines);
}

/// Ids are sifted by whether there is an item of that id already: all of them, in order.
pub proof fn law_ids_are_sifted_by_what_is_there(items: Seq<Seq<char>>, existing: Seq<Seq<char>>, there: bool, x: Seq<char>)
    ensures
        sifted(items, existing, there).contains(x) <==> items.contains(x) && (existing.contains(x) == there),
        sifted(items.push(x), existing, there) == (if (existing.contains(x) == there) {
            sifted(items, existing, there).push(x)
        } else {
            sifted(items, existing, there)
        }),
    decreases items.len(),
{
    assert(items.push(x).drop_last() =~= items);
    if items.len() > 0 {
        let init = items.drop_last();
        law_ids_are_sifted_by_what_is_there(init, existing, there, x);
        let rest = sifted(init, existing, there);
        let all = sifted(items, existing, there);
        if all.contains(x) {
            let k = choose|k: int| 0 <= k < all.len() && all[k] == x;
            if k < rest.len() {
                assert(rest[k] == x);
                let i = choose|i: int| 0 <= i < init.len() && init[i] == x;
                assert(items[i] == x);
            } else {
                assert(items[items.len() - 1] == x);
            }
        }
        if items.contains(x) && (existing.contains(x) == there) {
            let i = choose|i: int| 0 <= i < items.len() && items[i] == x;
            if i < init.len() {
                assert(init[i] == x);
                let k = choose|k: int| 0 <= k < rest.len() && rest[k] == x;
                assert(all[k] == x);
            } else {
                assert(all[rest.len() as int] == x);
            }
        }
    }
}

/// What is written is every record that has an id and is new, and with leave to overwrite every
/// record that has one; in order.
pub proof fn law_what_is_new_is_written(items: Seq<JsonView>, existing: Seq<Seq<char>>, overwrite: bool, x: JsonView)
    ensures
        to_write(items, existing, overwrite).contains(x) <==> items.contains(x) && (id_of(x) is Some && (overwrite || !existing.contains(id_of(x)->0))),
        to_write(items.push(x), existing, overwrite) == (if (id_of(x) is Some && (overwrite || !existing.contains(id_of(x)->0))) {
            to_write(items, existing, overwrite).push(x)
        } else {
            to_write(items, existing, overwrite)
        }),
    decreases items.len(),
{
    assert(items.push(x).drop_last() =~= items);
    if items.len() > 0 {
        let init = items.drop_last();
        law_what_is_new_is_written(init, existing, overwrite, x);
        let rest = to_write(init, existing, overwrite);
        let all = to_write(items, existing, overwrite);
        if all.contains(x) {
            let k = choose|k: int| 0 <= k < all.len() && all[k] == x;
            if k < rest.len() {
                assert(rest[k] == x);
                let i = choose|i: int| 0 <= i < init.len() && init[i] == x;
                assert(items[i] == x);
            } else {
                assert(items[items.len() - 1] == x);
            }
        }
        if items.contains(x) && (id_of(x) is Some && (overwrite || !existing.contains(id_of(x)->0))) {
            let i = choose|i: int| 0 <= i < items.len() && items[i] == x;
            if i < init.len() {
                assert(init[i] == x);
                let k = choose|k: int| 0 <= k < rest.len() && rest[k] == x;
                assert(all[k] == x);
            } else {
                assert(all[rest.len() as int] == x);
            }
        }
    }
}

/// The ids of some records are those that they have, in order.
pub proof fn law_records_go_by_their_ids(items: Seq<JsonView>, v: JsonView, id: Seq<char>)
    ensures
        ids_in(Seq::empty()).len() == 0,
        v.member("id"@) == Some(JsonView::Text(id)) ==> ids_in(items.push(v)) == ids_in(items).push(
            id,
        ),
        v.member("id"@) is None ==> ids_in(items.push(v)) == ids_in(items),
{
    assert(items.push(v).drop_last() =~= items);
}

/// A plan says which items would be made, left and replaced, in JSON by their ids and for
/// people by how many they are.
pub proof fn law_a_plan_says_what_would_happen(
    create: Seq<Seq<char>>,
    skip: Seq<Seq<char>>,
    overwrite: Seq<Seq<char>>,
    warnings: Seq<Seq<char>>,
)
    ensures
        plan_output(OutputFormat::Json, create, skip, overwrite, warnings)[0] matches OutView::Json(
            v,
        ) && (v.member("data"@) matches Some(d) && d.member("would_create"@) == Some(texts(create))
            && d.member("would_skip"@) == Some(texts(skip)) && d.member("would_overwrite"@) == Some(
            texts(overwrite),
        )) && v.member("_meta"@) == Some(warnings_meta(warnings)),
        plan_output(OutputFormat::Human, create, skip, overwrite, warnings) == seq![
            OutView::Text(
                "dry run: would create "@ + text::decimal(create.len()) + ", skip "@
                    + text::decimal(skip.len()) + ", overwrite "@ + text::decimal(overwrite.len()),
            ),
        ],
{
    let d = obj(
        seq![
            ("would_create"@, texts(create)),
            ("would_skip"@, texts(skip)),
            ("would_overwrite"@, texts(overwrite)),
        ],
    );
    reveal_strlit("would_create");
    reveal_strlit("would_skip");
    reveal_strlit("would_overwrite");
    let p = seq![
        ("would_create"@, texts(create)),
        ("would_skip"@, texts(skip)),
        ("would_overwrite"@, texts(overwrite)),
    ];
    assert(d == obj(p));
    assert(p[0].0 == "would_create"@ && p[1].0 == "would_skip"@ && p[2].0 == "would_overwrite"@);
    law_distinct_pairs_are_members(p);
    law_a_success_carries_its_data(d, warnings_meta(warnings));
}

/// A report says how many items were made, left and replaced, each by its own name.
pub proof fn law_a_restore_says_what_happened(r: RestoreReport, warnings: Seq<Seq<char>>)
    ensures
        restore_output(OutputFormat::Json, r, warnings)[0] matches OutView::Json(v) && (v.member(
            "data"@,
        ) matches Some(d) && d.member("created"@) == Some(num(r.created as int)) && d.member(
            "skipped"@,
        ) == Some(num(r.skipped as int)) && d.member("overwritten"@) == Some(
            num(r.overwritten as int),
        )) && v.member("_meta"@) == Some(warnings_meta(warnings)),
        restore_output(OutputFormat::Human, r, warnings) == seq![
            OutView::Text(
                "restored: "@ + text::decimal(r.created as nat) + " created, "@ + text::decimal(
                    r.skipped as nat,
                ) + " skipped, "@ + text::decimal(r.overwritten as nat) + " overwritten"@,
            ),
        ],
{
    let d = obj(
        seq![
            ("created"@, num(r.created as int)),
            ("skipped"@, num(r.skipped as int)),
            ("overwritten"@, num(r.overwritten as int)),
        ],
    );
    reveal_strlit("created");
    reveal_strlit("skipped");
    reveal_strlit("overwritten");
    let p = seq![
        ("created"@, num(r.created as int)),
        ("skipped"@, num(r.skipped as int)),
        ("overwritten"@, num(r.overwritten as int)),
    ];
    assert(d == obj(p));
    assert(p[0].0 == "created"@ && p[1].0 == "skipped"@ && p[2].0 == "overwritten"@);
    assert("created"@[0] != "skipped"@[0]);
    law_distinct_pairs_are_members(p);
    law_a_success_carries_its_data(d, warnings_meta(warnings));
}

} // verus!
