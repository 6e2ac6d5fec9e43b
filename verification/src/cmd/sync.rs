//! `clove sync github <owner/repo>`: one pass that pulls and pushes.

use vstd::prelude::*;

use crate::cmd::import::ImportError;
use crate::cmd::plugin::push_lines;
use crate::error::{invalid, invalid_field, CloveError, ErrorView};
use crate::json::{
    law_distinct_pairs_are_members, num, number, obj, object, string, strings, texts, Json,
    JsonView,
};
use crate::output::{
    law_a_success_carries_its_data, meta_without_warnings, pairs, success, success_envelope,
    warnings_meta, Out, OutView, OutputFormat,
};
use crate::text;

verus! {

/// Which side wins when both changed an issue since the last pass.
#[derive(Debug, Clone, Copy, PartialEq, Eq, Structural)]
pub enum ConflictPolicy {
    /// The newest edit.
    Newer,
    Local,
    Remote,
    /// Neither: the conflict is only reported.
    Manual,
}

/// The policy that `--prefer` names; the newest edit wins without it.
pub open spec fn policy_named(raw: Option<Seq<char>>) -> Result<ConflictPolicy, ErrorView> {
    match raw {
        None => Ok(ConflictPolicy::Newer),
        Some(word) => if word == "newer"@ {
            Ok(ConflictPolicy::Newer)
        } else if word == "local"@ {
            Ok(ConflictPolicy::Local)
        } else if word == "remote"@ {
            Ok(ConflictPolicy::Remote)
        } else if word == "manual"@ {
            Ok(ConflictPolicy::Manual)
        } else {
            Err(
                invalid_field(
                    "prefer"@,
                    "expected newer|local|remote|manual, got `"@ + word + "`"@,
                ),
            )
        },
    }
}

/// Reads `--prefer`.
pub fn policy_of(raw: Option<&str>) -> (r: Result<ConflictPolicy, CloveError>)
    ensures
        match r {
            Ok(p) => policy_named(text::opt_view(raw)) == Ok::<ConflictPolicy, ErrorView>(p),
            Err(e) => policy_named(text::opt_view(raw)) == Err::<ConflictPolicy, ErrorView>(
                e.deep_view(),
            ),
        },
{
    match raw {
        None => Ok(ConflictPolicy::Newer),
        Some(word) => if text::same(word, "newer") {
            Ok(ConflictPolicy::Newer)
        } else if text::same(word, "local") {
            Ok(ConflictPolicy::Local)
        } else if text::same(word, "remote") {
            Ok(ConflictPolicy::Remote)
        } else if text::same(word, "manual") {
            Ok(ConflictPolicy::Manual)
        } else {
            Err(
                invalid(
                    "prefer",
                    text::cat3("expected newer|local|remote|manual, got `", word, "`"),
                ),
            )
        },
    }
}

/// An issue that changed on both sides.
#[derive(Debug, PartialEq, Eq)]
pub struct Conflict {
    pub external_ref: String,
    pub clove_id: String,
    pub title: String,
    pub resolution: String,
}

/// The model of a [`Conflict`].
pub struct ConflictView {
    pub external_ref: Seq<char>,
    pub clove_id: Seq<char>,
    pub title: Seq<char>,
    pub resolution: Seq<char>,
}

impl DeepView for Conflict {
    type V = ConflictView;

    open spec fn deep_view(&self) -> ConflictView {
        ConflictView {
            external_ref: self.external_ref@,
            clove_id: self.clove_id@,
            title: self.title@,
            resolution: self.resolution@,
        }
    }
}

/// What a pass plans.
#[derive(Debug, PartialEq, Eq)]
pub struct SyncSummary {
    pub pull_create: usize,
    pub pull_update: usize,
    pub push_create: usize,
    pub push_update: usize,
    pub in_sync: u64,
    pub conflicts: Vec<Conflict>,
    /// Links of local items whose issue was not found.
    pub remote_missing: Vec<String>,
    /// The whole plan as JSON.
    pub serialized: Json,
}

/// What a pass did.
#[derive(Debug, Clone, Copy, PartialEq, Eq, Structural)]
pub struct SyncReport {
    pub pulled_created: u64,
    pub pulled_updated: u64,
    pub pushed_created: u64,
    pub pushed_updated: u64,
    pub comments_pulled: u64,
    pub comments_pushed: u64,
    pub in_sync: u64,
    pub conflicts: u64,
}

/// The object of a conflict.
pub open spec fn conflict_object(c: ConflictView) -> JsonView {
    obj(
        seq![
            ("external_ref"@, JsonView::Text(c.external_ref)),
            ("clove_id"@, JsonView::Text(c.clove_id)),
            ("title"@, JsonView::Text(c.title)),
            ("resolution"@, JsonView::Text(c.resolution)),
        ],
    )
}

fn conflict_json(c: &Conflict) -> (r: Json)
    ensures
        r.shape() == conflict_object(c.deep_view()),
{
    let v: Vec<(String, Json)> = vec![
        ("external_ref".to_owned(), string(c.external_ref.as_str())),
        ("clove_id".to_owned(), string(c.clove_id.as_str())),
        ("title".to_owned(), string(c.title.as_str())),
        ("resolution".to_owned(), string(c.resolution.as_str())),
    ];
    assert(pairs(v@) =~= seq![
        ("external_ref"@, JsonView::Text(c.external_ref@)),
        ("clove_id"@, JsonView::Text(c.clove_id@)),
        ("title"@, JsonView::Text(c.title@)),
        ("resolution"@, JsonView::Text(c.resolution@)),
    ]);
    object(v)
}

/// The conflicts as JSON.
pub open spec fn conflicts_array(c: Seq<ConflictView>) -> JsonView {
    JsonView::Array(Seq::new(c.len(), |i: int| conflict_object(c[i])))
}

fn conflicts_json(c: &Vec<Conflict>) -> (r: Json)
    ensures
        r.shape() == conflicts_array(c.deep_view()),
{
    let ghost all = c.deep_view();
    let mut items: Vec<Json> = Vec::new();
    let mut i: usize = 0;
    while i < c.len()
        invariant
            i <= c.len(),
            all == c.deep_view(),
            items.len() == i,
            forall|j: int| 0 <= j < i ==> (#[trigger] items@[j]).shape() == conflict_object(all[j]),
        decreases c.len() - i,
    {
        assert(all[i as int] == c@[i as int].deep_view());
        items.push(conflict_json(&c[i]));
        i += 1;
    }
    proof {
        crate::json::lemma_array_shape(items);
        assert(items.deep_view() =~= Seq::new(all.len(), |i: int| conflict_object(all[i])));
    }
    Json::Array(items)
}

/// The data of a pass that was applied.
pub open spec fn applied_object(
    r: SyncReport,
    conflicts: Seq<ConflictView>,
    missing: Seq<Seq<char>>,
) -> JsonView {
    obj(
        seq![
            ("pulled_created"@, num(r.pulled_created as int)),
            ("pulled_updated"@, num(r.pulled_updated as int)),
            ("pushed_created"@, num(r.pushed_created as int)),
            ("pushed_updated"@, num(r.pushed_updated as int)),
            ("comments_pulled"@, num(r.comments_pulled as int)),
            ("comments_pushed"@, num(r.comments_pushed as int)),
            ("in_sync"@, num(r.in_sync as int)),
            ("conflicts"@, conflicts_array(conflicts)),
            ("remote_missing"@, texts(missing)),
        ],
    )
}

fn applied_json(r: &SyncReport, s: &SyncSummary) -> (j: Json)
    ensures
        j.shape() == applied_object(*r, s.conflicts.deep_view(), s.remote_missing.deep_view()),
{
    let v: Vec<(String, Json)> = vec![
        ("pulled_created".to_owned(), number(r.pulled_created)),
        ("pulled_updated".to_owned(), number(r.pulled_updated)),
        ("pushed_created".to_owned(), number(r.pushed_created)),
        ("pushed_updated".to_owned(), number(r.pushed_updated)),
        ("comments_pulled".to_owned(), number(r.comments_pulled)),
        ("comments_pushed".to_owned(), number(r.comments_pushed)),
        ("in_sync".to_owned(), number(r.in_sync)),
        ("conflicts".to_owned(), conflicts_json(&s.conflicts)),
        ("remote_missing".to_owned(), strings(&s.remote_missing)),
    ];
    assert(pairs(v@) =~= seq![
        ("pulled_created"@, num(r.pulled_created as int)),
        ("pulled_updated"@, num(r.pulled_updated as int)),
        ("pushed_created"@, num(r.pushed_created as int)),
        ("pushed_updated"@, num(r.pushed_updated as int)),
        ("comments_pulled"@, num(r.comments_pulled as int)),
        ("comments_pushed"@, num(r.comments_pushed as int)),
        ("in_sync"@, num(r.in_sync as int)),
        ("conflicts"@, conflicts_array(s.conflicts.deep_view())),
        ("remote_missing"@, texts(s.remote_missing.deep_view())),
    ]);
    object(v)
}

/// Counts of what is pulled and pushed, as they are told.
pub open spec fn moves_told(
    pull: Seq<char>,
    push: Seq<char>,
    a: int,
    b: int,
    c: int,
    d: int,
) -> Seq<char> {
    pull + " "@ + text::decimal(a as nat) + " new / "@ + text::decimal(b as nat) + " updated, "@
        + push + " "@ + text::decimal(c as nat) + " new / "@ + text::decimal(d as nat) + " updated"@
}

fn moves(pull: &str, push: &str, a: u64, b: u64, c: u64, d: u64) -> (r: String)
    ensures
        r@ == moves_told(pull@, push@, a as int, b as int, c as int, d as int),
{
    let x = text::decimal_of(a);
    let y = text::decimal_of(b);
    let z = text::decimal_of(c);
    let w = text::decimal_of(d);
    let mut line = text::cat8(
        pull,
        " ",
        x.as_str(),
        " new / ",
        y.as_str(),
        " updated, ",
        push,
        " ",
    );
    line.append(z.as_str());
    line.append(" new / ");
    line.append(w.as_str());
    line.append(" updated");
    line
}

/// The line of a pass that was applied.
pub open spec fn applied_told(target: Seq<char>, r: SyncReport) -> Seq<char> {
    "synced "@ + target + ": "@ + moves_told(
        "pulled"@,
        "pushed"@,
        r.pulled_created as int,
        r.pulled_updated as int,
        r.pushed_created as int,
        r.pushed_updated as int,
    ) + ", comments +"@ + text::decimal(r.comments_pulled as nat) + "/-"@ + text::decimal(
        r.comments_pushed as nat,
    ) + ", "@ + text::decimal(r.in_sync as nat) + " in sync, "@ + text::decimal(r.conflicts as nat)
        + " conflicts"@
}

fn applied_line(target: &str, r: &SyncReport) -> (s: String)
    ensures
        s@ == applied_told(target@, *r),
{
    let m = moves(
        "pulled",
        "pushed",
        r.pulled_created,
        r.pulled_updated,
        r.pushed_created,
        r.pushed_updated,
    );
    let p = text::decimal_of(r.comments_pulled);
    let q = text::decimal_of(r.comments_pushed);
    let i = text::decimal_of(r.in_sync);
    let c = text::decimal_of(r.conflicts);
    let mut line = text::cat8(
        "synced ",
        target,
        ": ",
        m.as_str(),
        ", comments +",
        p.as_str(),
        "/-",
        q.as_str(),
    );
    line.append(", ");
    line.append(i.as_str());
    line.append(" in sync, ");
    line.append(c.as_str());
    line.append(" conflicts");
    line
}

/// The line of a dry run.
pub open spec fn planned_told(target: Seq<char>, s: SyncSummary) -> Seq<char> {
    "dry-run "@ + target + ": "@ + moves_told(
        "pull"@,
        "push"@,
        s.pull_create as int,
        s.pull_update as int,
        s.push_create as int,
        s.push_update as int,
    ) + ", "@ + text::decimal(s.in_sync as nat) + " in sync, "@ + text::decimal(
        s.conflicts@.len(),
    ) + " conflicts"@
}

fn planned_line(target: &str, s: &SyncSummary) -> (r: String)
    ensures
        r@ == planned_told(target@, *s),
{
    let m = moves(
        "pull",
        "push",
        s.pull_create as u64,
        s.pull_update as u64,
        s.push_create as u64,
        s.push_update as u64,
    );
    let i = text::decimal_of(s.in_sync);
    let c = text::decimal_of(s.conflicts.len() as u64);
    let mut line = text::cat8(
        "dry-run ",
        target,
        ": ",
        m.as_str(),
        ", ",
        i.as_str(),
        " in sync, ",
        c.as_str(),
    );
    line.append(" conflicts");
    line
}

/// The line of a conflict.
pub open spec fn conflict_told(c: ConflictView) -> Seq<char> {
    "  conflict "@ + c.external_ref + " ("@ + c.clove_id + ")  "@ + c.title + " -> "@ + c.resolution
}

/// The lines on the conflicts, and on stderr the links that lead nowhere.
pub open spec fn detail_lines(conflicts: Seq<ConflictView>, missing: Seq<Seq<char>>) -> Seq<OutView> {
    Seq::new(conflicts.len(), |i: int| OutView::Text(conflict_told(conflicts[i]))) + Seq::new(
        missing.len(),
        |i: int|
            OutView::Note(
                "warning: local item links "@ + missing[i] + " but the GitHub issue was not found"@,
            ),
    )
}

fn details(s: &SyncSummary) -> (r: Vec<Out>)
    ensures
        r.deep_view() == detail_lines(s.conflicts.deep_view(), s.remote_missing.deep_view()),
{
    let ghost all = s.conflicts.deep_view();
    let ghost gone = s.remote_missing.deep_view();
    let mut out: Vec<Out> = Vec::new();
    let mut i: usize = 0;
    while i < s.conflicts.len()
        invariant
            i <= s.conflicts.len(),
            all == s.conflicts.deep_view(),
            out.len() == i,
            forall|j: int|
                0 <= j < i ==> (#[trigger] out@[j]).deep_view() == OutView::Text(
                    conflict_told(all[j]),
                ),
        decreases s.conflicts.len() - i,
    {
        let c = &s.conflicts[i];
        assert(all[i as int] == s.conflicts@[i as int].deep_view());
        out.push(
            Out::Text(
                text::cat8(
                    "  conflict ",
                    c.external_ref.as_str(),
                    " (",
                    c.clove_id.as_str(),
                    ")  ",
                    c.title.as_str(),
                    " -> ",
                    c.resolution.as_str(),
                ),
            ),
        );
        i += 1;
    }
    let n = s.conflicts.len();
    let mut k: usize = 0;
    while k < s.remote_missing.len()
        invariant
            k <= s.remote_missing.len(),
            n == all.len(),
            gone == s.remote_missing.deep_view(),
            out.len() == n + k,
            forall|j: int|
                0 <= j < n ==> (#[trigger] out@[j]).deep_view() == OutView::Text(
                    conflict_told(all[j]),
                ),
            forall|j: int|
                n <= j < n + k ==> (#[trigger] out@[j]).deep_view() == OutView::Note(
                    "warning: local item links "@ + gone[j - n]
                        + " but the GitHub issue was not found"@,
                ),
        decreases s.remote_missing.len() - k,
    {
        assert(gone[k as int] == s.remote_missing@[k as int]@);
        out.push(
            Out::Note(
                text::cat3(
                    "warning: local item links ",
                    s.remote_missing[k].as_str(),
                    " but the GitHub issue was not found",
                ),
            ),
        );
        k += 1;
    }
    assert(out.deep_view() =~= detail_lines(all, gone));
    out
}

/// What is printed of a pass: what it did, or, of a dry run, the plan.
pub open spec fn sync_output(
    format: OutputFormat,
    target: Seq<char>,
    s: SyncSummary,
    report: Option<SyncReport>,
) -> Seq<OutView> {
    let conflicts = s.conflicts.deep_view();
    let missing = s.remote_missing.deep_view();
    if format == OutputFormat::Human {
        seq![
            OutView::Text(
                match report {
                    Some(r) => applied_told(target, r),
                    None => planned_told(target, s),
                },
            ),
        ] + detail_lines(conflicts, missing)
    } else {
        seq![
            OutView::Json(
                success(
                    match report {
                        Some(r) => applied_object(r, conflicts, missing),
                        None => s.serialized.shape(),
                    },
                    warnings_meta(Seq::empty()),
                ),
            ),
        ]
    }
}

/// Renders a pass.
pub fn run(
    format: OutputFormat,
    target: &str,
    summary: &SyncSummary,
    report: &Option<SyncReport>,
) -> (r: Vec<Out>)
    ensures
        r.deep_view() == sync_output(format, target@, *summary, *report),
{
    match format {
        OutputFormat::Human => {
            let told = match report {
                Some(r) => applied_line(target, r),
                None => planned_line(target, summary),
            };
            let line = Out::Text(told);
            let ghost view = line.deep_view();
            let mut out: Vec<Out> = vec![line];
            assert(out.deep_view() =~= seq![view]);
            push_lines(&mut out, details(summary));
            out
        },
        _ => {
            let data = match report {
                Some(r) => applied_json(r, summary),
                None => summary.serialized.copy(),
            };
            let line = Out::Json(success_envelope(data, meta_without_warnings()));
            let ghost view = line.deep_view();
            let out: Vec<Out> = vec![line];
            assert(out.deep_view() =~= seq![view]);
            out
        },
    }
}

/// The error that a failed pass is: a failure of the store is its own, and whatever could
/// not be read is an I/O error.
pub open spec fn sync_problem(e: ImportError) -> ErrorView {
    match e {
        ImportError::Core(inner) => inner.deep_view(),
        ImportError::Source { path, message } => ErrorView::Io { path: path@, source: message@ },
        ImportError::Incompatible { message } => ErrorView::Io {
            path: "<github>"@,
            source: message@,
        },
        ImportError::Record { message } => ErrorView::Io { path: "<github>"@, source: message@ },
    }
}

/// Maps a failed pass to an error.
pub fn sync_err(err: ImportError) -> (r: CloveError)
    ensures
        r.deep_view() == sync_problem(err),
{
    match err {
        ImportError::Core(inner) => inner,
        ImportError::Source { path, message } => CloveError::Io { path, source: message },
        ImportError::Incompatible { message } => CloveError::Io {
            path: "<github>".to_owned(),
            source: message,
        },
        ImportError::Record { message } => CloveError::Io {
            path: "<github>".to_owned(),
            source: message,
        },
    }
}

/// A conflict is told with what it is of on both sides, its title and how it was settled.
pub proof fn law_a_conflict_is_told_whole(c: ConflictView)
    ensures
        conflict_object(c).member("external_ref"@) == Some(JsonView::Text(c.external_ref)),
        conflict_object(c).member("clove_id"@) == Some(JsonView::Text(c.clove_id)),
        conflict_object(c).member("title"@) == Some(JsonView::Text(c.title)),
        conflict_object(c).member("resolution"@) == Some(JsonView::Text(c.resolution)),
{
    reveal_strlit("external_ref");
    reveal_strlit("clove_id");
    reveal_strlit("title");
    reveal_strlit("resolution");
    let p = seq![
        ("external_ref"@, JsonView::Text(c.external_ref)),
        ("clove_id"@, JsonView::Text(c.clove_id)),
        ("title"@, JsonView::Text(c.title)),
        ("resolution"@, JsonView::Text(c.resolution)),
    ];
    assert(conflict_object(c) == obj(p));
    assert(p[0].0 == "external_ref"@ && p[1].0 == "clove_id"@ && p[2].0 == "title"@ && p[3].0 == "resolution"@);
    law_distinct_pairs_are_members(p);
}

/// A sync reports what it pulled and pushed, each number under its own key, and every conflict
/// and every missing issue.
pub proof fn law_a_sync_reports_each_number(r: SyncReport, conflicts: Seq<ConflictView>, missing: Seq<Seq<char>>)
    ensures
        applied_object(r, conflicts, missing).member("pulled_created"@) == Some(num(r.pulled_created as int)),
        applied_object(r, conflicts, missing).member("pulled_updated"@) == Some(num(r.pulled_updated as int)),
        applied_object(r, conflicts, missing).member("pushed_created"@) == Some(num(r.pushed_created as int)),
        applied_object(r, conflicts, missing).member("pushed_updated"@) == Some(num(r.pushed_updated as int)),
        applied_object(r, conflicts, missing).member("comments_pulled"@) == Some(num(r.comments_pulled as int)),
        applied_object(r, conflicts, missing).member("comments_pushed"@) == Some(num(r.comments_pushed as int)),
        applied_object(r, conflicts, missing).member("in_sync"@) == Some(num(r.in_sync as int)),
        applied_object(r, conflicts, missing).member("conflicts"@) == Some(conflicts_array(conflicts)),
        applied_object(r, conflicts, missing).member("remote_missing"@) == Some(texts(missing)),
{
    reveal_strlit("pulled_created");
    reveal_strlit("pulled_updated");
    reveal_strlit("pushed_created");
    reveal_strlit("pushed_updated");
    reveal_strlit("comments_pulled");
    reveal_strlit("comments_pushed");
    reveal_strlit("in_sync");
    reveal_strlit("conflicts");
    reveal_strlit("remote_missing");
    let p = seq![
        ("pulled_created"@, num(r.pulled_created as int)),
        ("pulled_updated"@, num(r.pulled_updated as int)),
        ("pushed_created"@, num(r.pushed_created as int)),
        ("pushed_updated"@, num(r.pushed_updated as int)),
        ("comments_pulled"@, num(r.comments_pulled as int)),
        ("comments_pushed"@, num(r.comments_pushed as int)),
        ("in_sync"@, num(r.in_sync as int)),
        ("conflicts"@, conflicts_array(conflicts)),
        ("remote_missing"@, texts(missing)),
    ];
    assert(applied_object(r, conflicts, missing) == obj(p));
    assert(p[0].0 == "pulled_created"@ && p[1].0 == "pulled_updated"@ && p[2].0 == "pushed_created"@ && p[3].0 == "pushed_updated"@ && p[4].0 == "comments_pulled"@ && p[5].0 == "comments_pushed"@ && p[6].0 == "in_sync"@ && p[7].0 == "conflicts"@ && p[8].0 == "remote_missing"@);
    assert("pulled_created"@[7] != "pulled_updated"@[7]);
    assert("pulled_created"@[2] != "pushed_created"@[2]);
    assert("pulled_created"@[2] != "pushed_updated"@[2]);
    assert("pulled_created"@[0] != "remote_missing"@[0]);
    assert("pulled_updated"@[2] != "pushed_created"@[2]);
    assert("pulled_updated"@[2] != "pushed_updated"@[2]);
    assert("pulled_updated"@[0] != "remote_missing"@[0]);
    assert("pushed_created"@[7] != "pushed_updated"@[7]);
    assert("pushed_created"@[0] != "remote_missing"@[0]);
    assert("pushed_updated"@[0] != "remote_missing"@[0]);
    assert("comments_pulled"@[11] != "comments_pushed"@[11]);
    assert forall|i: int, j: int| 0 <= i < j < p.len() implies (#[trigger] p[i]).0 != (
    #[trigger] p[j]).0 by {
        assert(i == 0 || i == 1 || i == 2 || i == 3 || i == 4 || i == 5 || i == 6 || i == 7);
        assert(j == 1 || j == 2 || j == 3 || j == 4 || j == 5 || j == 6 || j == 7 || j == 8);
    }
    law_distinct_pairs_are_members(p);
}

/// What was pulled stands behind the word for it, new before updated, and so does what was
/// pushed.
pub proof fn law_what_was_moved_is_told_by_side(pull: Seq<char>, push: Seq<char>, a: int, b: int, c: int, d: int)
    ensures
        text::occurs(moves_told(pull, push, a, b, c, d), pull + " "@ + text::decimal(a as nat) + " new / "@ + text::decimal(b as nat) + " updated, "@),
        text::occurs(moves_told(pull, push, a, b, c, d), push + " "@ + text::decimal(c as nat) + " new / "@ + text::decimal(d as nat) + " updated"@),
{
    assert(moves_told(pull, push, a, b, c, d) =~= (Seq::<char>::empty()) + (pull + " "@ + text::decimal(a as nat) + " new / "@ + text::decimal(b as nat) + " updated, "@) + (push + " "@ + text::decimal(c as nat) + " new / "@ + text::decimal(d as nat) + " updated"@));
    text::lemma_occurs_between(Seq::<char>::empty(), pull + " "@ + text::decimal(a as nat) + " new / "@ + text::decimal(b as nat) + " updated, "@, push + " "@ + text::decimal(c as nat) + " new / "@ + text::decimal(d as nat) + " updated"@);
    assert(moves_told(pull, push, a, b, c, d) =~= (pull + " "@ + text::decimal(a as nat) + " new / "@ + text::decimal(b as nat) + " updated, "@) + (push + " "@ + text::decimal(c as nat) + " new / "@ + text::decimal(d as nat) + " updated"@) + (Seq::<char>::empty()));
    text::lemma_occurs_between(pull + " "@ + text::decimal(a as nat) + " new / "@ + text::decimal(b as nat) + " updated, "@, push + " "@ + text::decimal(c as nat) + " new / "@ + text::decimal(d as nat) + " updated"@, Seq::<char>::empty());
}

/// The line on a sync tells what the report says: what was pulled and what was pushed, the
/// comments, and how many items are in sync and in conflict.
pub proof fn law_a_sync_line_tells_its_report(target: Seq<char>, r: SyncReport)
    ensures
        text::begins(applied_told(target, r), "synced "@ + target + ": "@),
        text::occurs(
            applied_told(target, r),
            moves_told(
                "pulled"@,
                "pushed"@,
                r.pulled_created as int,
                r.pulled_updated as int,
                r.pushed_created as int,
                r.pushed_updated as int,
            ),
        ),
        text::ends(
            applied_told(target, r),
            ", comments +"@ + text::decimal(r.comments_pulled as nat) + "/-"@ + text::decimal(
                r.comments_pushed as nat,
            ) + ", "@ + text::decimal(r.in_sync as nat) + " in sync, "@ + text::decimal(
                r.conflicts as nat,
            ) + " conflicts"@,
        ),
{
    let tail = ", comments +"@ + text::decimal(r.comments_pulled as nat) + "/-"@ + text::decimal(
        r.comments_pushed as nat,
    ) + ", "@ + text::decimal(r.in_sync as nat) + " in sync, "@ + text::decimal(r.conflicts as nat)
        + " conflicts"@;
    let s = applied_told(target, r);
    let m = moves_told(
        "pulled"@,
        "pushed"@,
        r.pulled_created as int,
        r.pulled_updated as int,
        r.pushed_created as int,
        r.pushed_updated as int,
    );
    let front = "synced "@ + target + ": "@;
    assert(s =~= front + m + tail);
    assert(s.skip(s.len() - tail.len()) =~= tail);
    assert(s.take(front.len() as int) =~= front);
    text::lemma_occurs_between(front, m, tail);
}

/// The line on a sync that was only planned tells what its summary says.
pub proof fn law_a_planned_sync_tells_its_summary(target: Seq<char>, s: SyncSummary)
    ensures
        text::begins(planned_told(target, s), "dry-run "@ + target + ": "@),
        text::occurs(
            planned_told(target, s),
            moves_told(
                "pull"@,
                "push"@,
                s.pull_create as int,
                s.pull_update as int,
                s.push_create as int,
                s.push_update as int,
            ),
        ),
        text::ends(
            planned_told(target, s),
            ", "@ + text::decimal(s.in_sync as nat) + " in sync, "@ + text::decimal(
                s.conflicts@.len(),
            ) + " conflicts"@,
        ),
{
    let tail = ", "@ + text::decimal(s.in_sync as nat) + " in sync, "@ + text::decimal(
        s.conflicts@.len(),
    ) + " conflicts"@;
    let t = planned_told(target, s);
    let m = moves_told(
        "pull"@,
        "push"@,
        s.pull_create as int,
        s.pull_update as int,
        s.push_create as int,
        s.push_update as int,
    );
    let front = "dry-run "@ + target + ": "@;
    assert(t =~= front + m + tail);
    assert(t.skip(t.len() - tail.len()) =~= tail);
    assert(t.take(front.len() as int) =~= front);
    text::lemma_occurs_between(front, m, tail);
}

/// Every conflict has a line that names both sides, and every missing issue a warning that
/// names it, in order.
pub proof fn law_every_conflict_and_every_gap_is_told(
    conflicts: Seq<ConflictView>,
    missing: Seq<Seq<char>>,
    i: int,
    j: int,
)
    ensures
        detail_lines(conflicts, missing).len() == conflicts.len() + missing.len(),
        0 <= i < conflicts.len() ==> (detail_lines(conflicts, missing)[i] matches OutView::Text(s)
            && text::begins(
            s,
            "  conflict "@ + conflicts[i].external_ref + " ("@ + conflicts[i].clove_id + ")  "@
                + conflicts[i].title,
        ) && text::ends(s, " -> "@ + conflicts[i].resolution)),
        0 <= j < missing.len() ==> (detail_lines(conflicts, missing)[conflicts.len() + j]
            matches OutView::Note(s) && text::occurs(s, missing[j])),
{
    if 0 <= i < conflicts.len() {
        let c = conflicts[i];
        let front = "  conflict "@ + c.external_ref + " ("@ + c.clove_id + ")  "@ + c.title;
        let back = " -> "@ + c.resolution;
        let s = conflict_told(c);
        assert(s =~= front + back);
        assert(s.take(front.len() as int) =~= front);
        assert(s.skip(front.len() as int) =~= back);
    }
    if 0 <= j < missing.len() {
        text::lemma_occurs_between(
            "warning: local item links "@,
            missing[j],
            " but the GitHub issue was not found"@,
        );
    }
}

/// The policy is the one that was named, and the newer side wins where none was.
pub proof fn law_the_named_policy_is_chosen(word: Seq<char>)
    ensures
        policy_named(None) == Ok::<ConflictPolicy, ErrorView>(ConflictPolicy::Newer),
        policy_named(Some("newer"@)) == Ok::<ConflictPolicy, ErrorView>(ConflictPolicy::Newer),
        policy_named(Some("local"@)) == Ok::<ConflictPolicy, ErrorView>(ConflictPolicy::Local),
        policy_named(Some("remote"@)) == Ok::<ConflictPolicy, ErrorView>(ConflictPolicy::Remote),
        policy_named(Some("manual"@)) == Ok::<ConflictPolicy, ErrorView>(ConflictPolicy::Manual),
        word != "newer"@ && word != "local"@ && word != "remote"@ && word != "manual"@
            ==> policy_named(Some(word)) is Err,
{
    reveal_strlit("newer");
    reveal_strlit("local");
    reveal_strlit("remote");
    reveal_strlit("manual");
    assert("newer"@[0] != "local"@[0]);
    assert("remote"@[0] != "manual"@[0]);
    assert("newer"@ != "local"@ && "remote"@ != "manual"@);
    assert("newer"@.len() != "remote"@.len() && "newer"@.len() != "manual"@.len());
    assert("local"@.len() != "remote"@.len() && "local"@.len() != "manual"@.len());
}

/// A sync that was carried out is told by its report, and one that was only planned by its
/// summary.
pub proof fn law_a_dry_run_tells_its_plan(
    target: Seq<char>,
    s: SyncSummary,
    report: Option<SyncReport>,
)
    ensures
        report matches Some(r) ==> sync_output(OutputFormat::Human, target, s, report)[0]
            == OutView::Text(applied_told(target, r)),
        report is None ==> sync_output(OutputFormat::Human, target, s, report)[0] == OutView::Text(
            planned_told(target, s),
        ),
        sync_output(OutputFormat::Json, target, s, report)[0] matches OutView::Json(v) && v.member(
            "data"@,
        ) == Some(
            match report {
                Some(r) => applied_object(r, s.conflicts.deep_view(), s.remote_missing.deep_view()),
                None => s.serialized.shape(),
            },
        ),
        text::begins(planned_told(target, s), "dry-run "@ + target),
{
    let data = match report {
        Some(r) => applied_object(r, s.conflicts.deep_view(), s.remote_missing.deep_view()),
        None => s.serialized.shape(),
    };
    law_a_success_carries_its_data(data, warnings_meta(Seq::empty()));
    let front = "dry-run "@ + target;
    assert(planned_told(target, s).take(front.len() as int) =~= front);
}

/// What stopped a pass is told as what it was: a failure of the store as its own, a file by its
/// path, and anything else as of the other side.
pub proof fn law_a_failed_pass_is_told(message: String, path: String)
    ensures
        sync_problem(ImportError::Source { path, message }) == (ErrorView::Io {
            path: path@,
            source: message@,
        }),
        sync_problem(ImportError::Record { message }) == (ErrorView::Io {
            path: "<github>"@,
            source: message@,
        }),
        sync_problem(ImportError::Incompatible { message }) == (ErrorView::Io {
            path: "<github>"@,
            source: message@,
        }),
{
}

} // verus!
