//! `clove merge-driver <ancestor> <ours> <theirs> <marker-size>`: git's three-way merge of
//! an item file. Git reads the result back from `<ours>`, and takes a nonzero exit for a
//! conflict.

use vstd::prelude::*;

use crate::error::{CloveError, ErrorView};
use crate::exit::ExitCode;
use crate::json::{law_distinct_pairs_are_members, obj, object, string, Json, JsonView};
use crate::output::{
    law_a_success_carries_its_data, meta_without_warnings, pairs, success, success_envelope,
    warnings_meta, Out, OutView, OutputFormat,
};
use crate::text;

verus! {

/// The size of a conflict marker: at least 7.
pub fn marker_size(asked: usize) -> (r: usize)
    ensures
        r == (if asked > 7 {
            asked
        } else {
            7
        }),
{
    if asked > 7 {
        asked
    } else {
        7
    }
}

/// What a merge does first: it is refused, which leaves our file as it is, or the bodies are
/// merged.
#[derive(Debug, PartialEq, Eq)]
pub enum MergeStep {
    /// What is printed, and the exit code.
    Refused(Vec<Out>, ExitCode),
    /// The three bodies. Without a base that takes part, its body is empty.
    Bodies { ours: String, base: String, theirs: String, with_base: bool },
}

/// The model of a [`MergeStep`].
pub enum MergeStepView {
    Refused(Seq<OutView>, ExitCode),
    Bodies { ours: Seq<char>, base: Seq<char>, theirs: Seq<char>, with_base: bool },
}

impl DeepView for MergeStep {
    type V = MergeStepView;

    open spec fn deep_view(&self) -> MergeStepView {
        match self {
            MergeStep::Refused(out, exit) => MergeStepView::Refused(out.deep_view(), *exit),
            MergeStep::Bodies { ours, base, theirs, with_base } => MergeStepView::Bodies {
                ours: ours@,
                base: base@,
                theirs: theirs@,
                with_base: *with_base,
            },
        }
    }
}

/// Why a merge is not even tried: one of the sides is no item. A side is given by the body
/// of its item, if it is one.
pub open spec fn refusal_note(ours: Option<Seq<char>>, theirs: Option<Seq<char>>) -> Option<
    Seq<char>,
> {
    if ours is None {
        Some("unparseable-ours"@)
    } else if theirs is None {
        Some("unparseable-theirs"@)
    } else {
        None
    }
}

/// How a merge begins. Git falls back to what it does by itself if a side is no item. A base
/// that is absent, empty or no item does not take part.
pub open spec fn merge_begun(
    format: OutputFormat,
    path: Seq<char>,
    ours: Option<Seq<char>>,
    theirs: Option<Seq<char>>,
    base: Option<Seq<char>>,
    base_empty: bool,
) -> MergeStepView {
    match refusal_note(ours, theirs) {
        Some(note) => MergeStepView::Refused(
            merge_output(format, path, false, note),
            ExitCode::Usage,
        ),
        None => MergeStepView::Bodies {
            ours: ours->0,
            base: if base is Some && !base_empty {
                base->0
            } else {
                Seq::empty()
            },
            theirs: theirs->0,
            with_base: base is Some && !base_empty,
        },
    }
}

/// Begins a merge.
pub fn begin(
    format: OutputFormat,
    path: &str,
    ours: Option<&str>,
    theirs: Option<&str>,
    base: Option<&str>,
    base_empty: bool,
) -> (r: MergeStep)
    ensures
        r.deep_view() == merge_begun(
            format,
            path@,
            text::opt_view(ours),
            text::opt_view(theirs),
            text::opt_view(base),
            base_empty,
        ),
{
    let ours = match ours {
        Some(body) => body,
        None => {
            return MergeStep::Refused(
                finish(format, path, false, "unparseable-ours"),
                ExitCode::Usage,
            );
        },
    };
    let theirs = match theirs {
        Some(body) => body,
        None => {
            return MergeStep::Refused(
                finish(format, path, false, "unparseable-theirs"),
                ExitCode::Usage,
            );
        },
    };
    let (base, with_base) = match base {
        Some(body) => if base_empty {
            (String::new(), false)
        } else {
            (body.to_owned(), true)
        },
        None => (String::new(), false),
    };
    assert(!with_base ==> base@ =~= Seq::<char>::empty());
    MergeStep::Bodies { ours: ours.to_owned(), base, theirs: theirs.to_owned(), with_base }
}

// ---- The body -----------------------------------------------------------------

/// The arguments of `git merge-file`: the result goes to stdout, the three labels name the
/// sides.
pub open spec fn merge_file_words(
    size: int,
    ours: Seq<char>,
    base: Seq<char>,
    theirs: Seq<char>,
) -> Seq<Seq<char>> {
    seq![
        "merge-file"@,
        "-p"@,
        "-L"@,
        "ours"@,
        "-L"@,
        "base"@,
        "-L"@,
        "theirs"@,
        "--marker-size="@ + text::decimal(size as nat),
        ours,
        base,
        theirs,
    ]
}

/// The arguments that merge the bodies.
pub fn merge_file_args(size: usize, ours: &str, base: &str, theirs: &str) -> (r: Vec<String>)
    ensures
        r.deep_view() == merge_file_words(size as int, ours@, base@, theirs@),
{
    let n = text::decimal_of(size as u64);
    let v: Vec<String> = vec![
        "merge-file".to_owned(),
        "-p".to_owned(),
        "-L".to_owned(),
        "ours".to_owned(),
        "-L".to_owned(),
        "base".to_owned(),
        "-L".to_owned(),
        "theirs".to_owned(),
        text::cat2("--marker-size=", n.as_str()),
        ours.to_owned(),
        base.to_owned(),
        theirs.to_owned(),
    ];
    assert(v.deep_view() =~= merge_file_words(size as int, ours@, base@, theirs@));
    v
}

/// A merged body.
#[derive(Debug, PartialEq, Eq)]
pub struct BodyMerge {
    pub text: String,
    pub conflicted: bool,
}

/// What `git merge-file` came to: 0 is a clean merge, a positive number counts conflicts,
/// anything else is a failure.
pub fn merge_body(status: Option<i32>, stdout: &str, stderr: &str) -> (r: Result<
    BodyMerge,
    CloveError,
>)
    ensures
        match r {
            Ok(b) => status matches Some(n) && n >= 0 && b.text@ == stdout@ && b.conflicted == (n
                > 0),
            Err(e) => (status is None || status->0 < 0) && e.deep_view() == (ErrorView::Io {
                path: "git merge-file"@,
                source: "git merge-file failed: "@ + stderr@,
            }),
        },
{
    let code: i32 = match status {
        Some(n) => n,
        None => -1,
    };
    if code < 0 {
        return Err(
            CloveError::Io {
                path: "git merge-file".to_owned(),
                source: text::cat2("git merge-file failed: ", stderr),
            },
        );
    }
    Ok(BodyMerge { text: stdout.to_owned(), conflicted: code > 0 })
}

// ---- The frontmatter ----------------------------------------------------------

/// A field that both sides changed, to different values.
#[derive(Debug, PartialEq, Eq)]
pub struct FieldConflict {
    pub field: String,
    pub ours: String,
    pub theirs: String,
}

/// The model of a [`FieldConflict`].
pub struct FieldView {
    pub field: Seq<char>,
    pub ours: Seq<char>,
    pub theirs: Seq<char>,
}

impl DeepView for FieldConflict {
    type V = FieldView;

    open spec fn deep_view(&self) -> FieldView {
        FieldView { field: self.field@, ours: self.ours@, theirs: self.theirs@ }
    }
}

/// A marker.
pub open spec fn marker(c: char, size: int) -> Seq<char> {
    Seq::new(size as nat, |i: int| c)
}

/// Both values of a field, between markers.
pub open spec fn conflict_text(c: FieldView, size: int) -> Seq<char> {
    marker('<', size) + " ours\n"@ + c.field + ": "@ + c.ours + "\n"@ + marker('=', size) + "\n"@
        + c.field + ": "@ + c.theirs + "\n"@ + marker('>', size) + " theirs\n"@
}

/// The fields in conflict, one after the other.
pub open spec fn conflict_texts(all: Seq<FieldView>, size: int) -> Seq<char>
    decreases all.len(),
{
    if all.len() == 0 {
        Seq::empty()
    } else {
        conflict_texts(all.drop_last(), size) + conflict_text(all.last(), size)
    }
}

/// The block that shows every field in conflict to whoever resolves it; nothing where none
/// is.
pub open spec fn conflict_block(all: Seq<FieldView>, size: int) -> Seq<char> {
    if all.len() == 0 {
        Seq::empty()
    } else {
        "\n<!-- clove: frontmatter merge conflict, resolve and remove this block\n"@
            + conflict_texts(all, size) + "-->\n"@
    }
}

fn push_conflict(out: &mut String, c: &FieldConflict, size: usize)
    ensures
        final(out)@ == old(out)@ + conflict_text(c.deep_view(), size as int),
{
    let ghost start = out@;
    let lt = text::repeat('<', size);
    let eq = text::repeat('=', size);
    let gt = text::repeat('>', size);
    let mine = text::cat6(
        lt.as_str(),
        " ours\n",
        c.field.as_str(),
        ": ",
        c.ours.as_str(),
        "\n",
    );
    let yours = text::cat8(
        eq.as_str(),
        "\n",
        c.field.as_str(),
        ": ",
        c.theirs.as_str(),
        "\n",
        gt.as_str(),
        " theirs\n",
    );
    let both = text::cat2(mine.as_str(), yours.as_str());
    assert(both@ =~= conflict_text(c.deep_view(), size as int));
    out.append(both.as_str());
}

/// Builds the block of the fields in conflict.
pub fn field_conflict_block(conflicts: &Vec<FieldConflict>, size: usize) -> (r: String)
    ensures
        r@ == conflict_block(conflicts.deep_view(), size as int),
{
    let ghost all = conflicts.deep_view();
    assert(all.len() == conflicts.len());
    if conflicts.len() == 0 {
        let none = String::new();
        assert(none@ =~= Seq::<char>::empty());
        return none;
    }
    let mut inner: String = String::new();
    let mut i: usize = 0;
    assert(inner@ =~= conflict_texts(all.take(0), size as int));
    while i < conflicts.len()
        invariant
            i <= conflicts.len(),
            all == conflicts.deep_view(),
            inner@ == conflict_texts(all.take(i as int), size as int),
        decreases conflicts.len() - i,
    {
        assert(all.take(i + 1).drop_last() =~= all.take(i as int));
        assert(all[i as int] == conflicts@[i as int].deep_view());
        push_conflict(&mut inner, &conflicts[i], size);
        i += 1;
    }
    assert(all.take(i as int) =~= all);
    text::cat3(
        "\n<!-- clove: frontmatter merge conflict, resolve and remove this block\n",
        inner.as_str(),
        "-->\n",
    )
}

// ---- The result ---------------------------------------------------------------

/// What a merge writes: the merged frontmatter, the block of the fields in conflict, and
/// the merged body.
pub fn merged_file(frontmatter: &str, conflicts: &Vec<FieldConflict>, body: &BodyMerge, size: usize) -> (r:
    String)
    ensures
        r@ == frontmatter@ + conflict_block(conflicts.deep_view(), size as int) + body.text@,
{
    let block = field_conflict_block(conflicts, size);
    text::cat3(frontmatter, block.as_str(), body.text.as_str())
}

/// The exit code: a merge is clean when neither the frontmatter nor the body is in
/// conflict.
pub open spec fn merge_exit(clean: bool, body_conflicted: bool) -> ExitCode {
    if clean && !body_conflicted {
        ExitCode::Success
    } else {
        ExitCode::Usage
    }
}

/// A merge that was carried out: what our file is to hold, what is printed, and the exit
/// code.
#[derive(Debug, PartialEq, Eq)]
pub struct Merged {
    pub text: String,
    pub out: Vec<Out>,
    pub exit: ExitCode,
}

/// Concludes a merge.
pub fn conclude(
    format: OutputFormat,
    path: &str,
    frontmatter: &str,
    conflicts: &Vec<FieldConflict>,
    body: &BodyMerge,
    size: usize,
) -> (r: Merged)
    ensures
        r.text@ == frontmatter@ + conflict_block(conflicts.deep_view(), size as int) + body.text@,
        r.exit == merge_exit(conflicts.deep_view().len() == 0, body.conflicted),
        r.out.deep_view() == merge_output(
            format,
            path@,
            conflicts.deep_view().len() == 0 && !body.conflicted,
            "merged"@,
        ),
{
    let clean = conflicts.len() == 0 && !body.conflicted;
    assert(conflicts.deep_view().len() == conflicts.len());
    let exit = if clean {
        ExitCode::Success
    } else {
        ExitCode::Usage
    };
    Merged {
        text: merged_file(frontmatter, conflicts, body, size),
        out: finish(format, path, clean, "merged"),
        exit,
    }
}

/// The exit code of a whole run, as git sees it.
pub open spec fn run_exit(step: MergeStepView, conflicts: nat, body_conflicted: bool) -> ExitCode {
    match step {
        MergeStepView::Refused(_, exit) => exit,
        MergeStepView::Bodies { .. } => merge_exit(conflicts == 0, body_conflicted),
    }
}

/// Git stages a file exactly when both sides are items and nothing in them is in conflict;
/// any other merge exits with 1. A merge is refused, and then leaves our file alone, exactly
/// when a side is no item.
pub proof fn law_only_a_clean_merge_exits_with_zero(
    format: OutputFormat,
    path: Seq<char>,
    ours: Option<Seq<char>>,
    theirs: Option<Seq<char>>,
    base: Option<Seq<char>>,
    base_empty: bool,
    conflicts: nat,
    body_conflicted: bool,
)
    ensures
        ({
            let step = merge_begun(format, path, ours, theirs, base, base_empty);
            let exit = run_exit(step, conflicts, body_conflicted);
            &&& step is Refused <==> ours is None || theirs is None
            &&& step is Refused ==> exit == ExitCode::Usage
            &&& exit == ExitCode::Success <==> ours is Some && theirs is Some && conflicts == 0
                && !body_conflicted
            &&& exit != ExitCode::Success ==> exit == ExitCode::Usage
            &&& exit.number() == 0 <==> exit == ExitCode::Success
        }),
{
}

/// What a conflict shows is both values.
#[verifier::rlimit(60)]
#[verifier::spinoff_prover]
pub proof fn law_a_conflict_shows_both_values(all: Seq<FieldView>, size: int, k: int)
    requires
        0 <= k < all.len(),
    ensures
        text::occurs(conflict_block(all, size), all[k].ours),
        text::occurs(conflict_block(all, size), all[k].theirs),
{
    let head = "\n<!-- clove: frontmatter merge conflict, resolve and remove this block\n"@;
    let t = conflict_texts(all, size);
    lemma_conflict_within(all, size, k);
    let c = conflict_text(all[k], size);
    let at = choose|at: int| text::occurs_at(t, c, at);
    let block = conflict_block(all, size);
    let a = marker('<', size) + " ours\n"@ + all[k].field + ": "@;
    let b = a + all[k].ours + "\n"@ + marker('=', size) + "\n"@ + all[k].field + ": "@;
    assert(c.subrange(a.len() as int, a.len() as int + all[k].ours.len()) =~= all[k].ours);
    assert(c.subrange(b.len() as int, b.len() as int + all[k].theirs.len()) =~= all[k].theirs);
    let p: int = head.len() as int + at + a.len();
    let q: int = head.len() as int + at + b.len();
    assert(t.subrange(at, at + c.len()) == c);
    assert(block.subrange(p, p + all[k].ours.len()) =~= all[k].ours) by {
        assert forall|i: int| 0 <= i < all[k].ours.len() implies block[p + i] == all[k].ours[i] by {
            assert(block[p + i] == t[at + a.len() + i]);
            assert(t.subrange(at, at + c.len())[a.len() + i] == t[at + a.len() + i]);
            assert(c.subrange(a.len() as int, a.len() as int + all[k].ours.len())[i] == c[a.len() + i]);
        }
    }
    assert(block.subrange(q, q + all[k].theirs.len()) =~= all[k].theirs) by {
        assert forall|i: int| 0 <= i < all[k].theirs.len() implies block[q + i]
            == all[k].theirs[i] by {
            assert(block[q + i] == t[at + b.len() + i]);
            assert(t.subrange(at, at + c.len())[b.len() + i] == t[at + b.len() + i]);
            assert(c.subrange(b.len() as int, b.len() as int + all[k].theirs.len())[i] == c[b.len() + i]);
        }
    }
    assert(text::occurs_at(block, all[k].ours, p));
    assert(text::occurs_at(block, all[k].theirs, q));
}

proof fn lemma_conflict_within(all: Seq<FieldView>, size: int, k: int)
    requires
        0 <= k < all.len(),
    ensures
        exists|at: int|
            text::occurs_at(conflict_texts(all, size), conflict_text(all[k], size), at),
    decreases all.len(),
{
    let init = all.drop_last();
    let t = conflict_texts(all, size);
    let before = conflict_texts(init, size);
    if k < init.len() {
        lemma_conflict_within(init, size, k);
        let c = conflict_text(all[k], size);
        let at = choose|at: int| text::occurs_at(before, c, at);
        assert(t.subrange(at, at + c.len()) =~= before.subrange(at, at + c.len()));
        assert(text::occurs_at(t, c, at));
    } else {
        let c = conflict_text(all.last(), size);
        let at = before.len() as int;
        assert(t.subrange(at, at + c.len()) =~= c);
        assert(text::occurs_at(t, c, at));
    }
}

/// What is printed of a merge: git reads none of it, and gets it only in a JSON format.
pub open spec fn merge_output(format: OutputFormat, ours: Seq<char>, clean: bool, note: Seq<char>) -> Seq<
    OutView,
> {
    if format == OutputFormat::Human {
        Seq::empty()
    } else {
        seq![
            OutView::Json(
                success(
                    obj(
                        seq![
                            ("ours"@, JsonView::Text(ours)),
                            ("clean"@, JsonView::Bool(clean)),
                            ("conflict"@, JsonView::Bool(!clean)),
                            ("note"@, JsonView::Text(note)),
                        ],
                    ),
                    warnings_meta(Seq::empty()),
                ),
            ),
        ]
    }
}

/// Renders a merge.
pub fn finish(format: OutputFormat, ours: &str, clean: bool, note: &str) -> (r: Vec<Out>)
    ensures
        r.deep_view() == merge_output(format, ours@, clean, note@),
{
    let mut out: Vec<Out> = Vec::new();
    if format != OutputFormat::Human {
        let v: Vec<(String, Json)> = vec![
            ("ours".to_owned(), string(ours)),
            ("clean".to_owned(), Json::Bool(clean)),
            ("conflict".to_owned(), Json::Bool(!clean)),
            ("note".to_owned(), string(note)),
        ];
        assert(pairs(v@) =~= seq![
            ("ours"@, JsonView::Text(ours@)),
            ("clean"@, JsonView::Bool(clean)),
            ("conflict"@, JsonView::Bool(!clean)),
            ("note"@, JsonView::Text(note@)),
        ]);
        out.push(Out::Json(success_envelope(object(v), meta_without_warnings())));
    }
    assert(out.deep_view() =~= merge_output(format, ours@, clean, note@));
    out
}

// ---- What a merge keeps apart ---------------------------------------------------

/// The bodies that are merged are those of the sides that they are named after, over the
/// base if there is one that is not empty.
pub proof fn law_the_sides_of_a_merge_are_kept_apart(
    format: OutputFormat,
    path: Seq<char>,
    ours: Seq<char>,
    theirs: Seq<char>,
    base: Option<Seq<char>>,
    base_empty: bool,
)
    ensures
        merge_begun(format, path, Some(ours), Some(theirs), base, base_empty) matches MergeStepView::Bodies {
            ours: o,
            base: b,
            theirs: t,
            with_base,
        } && o == ours && t == theirs && (with_base <==> base is Some && !base_empty) && (with_base
            ==> b == base->0) && (!with_base ==> b.len() == 0),
{
}

/// `git merge-file` gets the file of our side first, the base second and that of their side
/// third, labelled in that order, and prints the result.
pub proof fn law_the_files_of_a_merge_come_in_order(
    size: int,
    ours: Seq<char>,
    base: Seq<char>,
    theirs: Seq<char>,
)
    ensures
        ({
            let w = merge_file_words(size, ours, base, theirs);
            let n = w.len() as int;
            &&& w[0] == "merge-file"@ && w.contains("-p"@)
            &&& w[n - 3] == ours && w[n - 2] == base && w[n - 1] == theirs
            &&& w[2] == "-L"@ && w[3] == "ours"@ && w[4] == "-L"@ && w[5] == "base"@ && w[6]
                == "-L"@ && w[7] == "theirs"@
            &&& text::ends(w[n - 4], text::decimal(size as nat))
        }),
{
    let w = merge_file_words(size, ours, base, theirs);
    assert(w[1] == "-p"@);
    let front = "--marker-size="@;
    let d = text::decimal(size as nat);
    assert((front + d).skip(front.len() as int) =~= d);
}

/// In a conflict our value stands above the dividing line and theirs below it, each behind
/// the name of the field and between markers of the asked size.
pub proof fn law_our_value_stands_above_theirs(c: FieldView, size: int)
    requires
        size >= 0,
    ensures
        text::begins(
            conflict_text(c, size),
            marker('<', size) + " ours\n"@ + c.field + ": "@ + c.ours + "\n"@ + marker('=', size),
        ),
        text::ends(
            conflict_text(c, size),
            marker('=', size) + "\n"@ + c.field + ": "@ + c.theirs + "\n"@ + marker('>', size)
                + " theirs\n"@,
        ),
        marker('<', size).len() == size,
        forall|i: int| 0 <= i < size ==> #[trigger] marker('<', size)[i] == '<',
{
    let top = marker('<', size) + " ours\n"@ + c.field + ": "@ + c.ours + "\n"@;
    let line = marker('=', size);
    let low = "\n"@ + c.field + ": "@ + c.theirs + "\n"@ + marker('>', size) + " theirs\n"@;
    let s = conflict_text(c, size);
    assert(s =~= top + line + low);
    assert(s.take((top + line).len() as int) =~= top + line);
    let end = line + "\n"@ + c.field + ": "@ + c.theirs + "\n"@ + marker('>', size)
        + " theirs\n"@;
    assert(end =~= line + low);
    assert(s.skip(s.len() - end.len()) =~= end);
}

/// What is printed of a merge says of which file, whether it is clean, and the opposite of
/// whether it conflicts.
pub proof fn law_a_merge_says_whether_it_is_clean(
    ours: Seq<char>,
    clean: bool,
    note: Seq<char>,
)
    ensures
        merge_output(OutputFormat::Human, ours, clean, note).len() == 0,
        merge_output(OutputFormat::Json, ours, clean, note)[0] matches OutView::Json(v) && (v.member(
            "data"@,
        ) matches Some(d) && d.member("ours"@) == Some(JsonView::Text(ours)) && d.member("clean"@)
            == Some(JsonView::Bool(clean)) && d.member("conflict"@) == Some(JsonView::Bool(!clean))
            && d.member("note"@) == Some(JsonView::Text(note))),
{
    let data = obj(
        seq![
            ("ours"@, JsonView::Text(ours)),
            ("clean"@, JsonView::Bool(clean)),
            ("conflict"@, JsonView::Bool(!clean)),
            ("note"@, JsonView::Text(note)),
        ],
    );
    law_a_success_carries_its_data(data, warnings_meta(Seq::empty()));
    reveal_strlit("ours");
    reveal_strlit("clean");
    reveal_strlit("conflict");
    reveal_strlit("note");
    let p = seq![
        ("ours"@, JsonView::Text(ours)),
        ("clean"@, JsonView::Bool(clean)),
        ("conflict"@, JsonView::Bool(!clean)),
        ("note"@, JsonView::Text(note)),
    ];
    assert(data == obj(p));
    assert(p[0].0 == "ours"@ && p[1].0 == "clean"@ && p[2].0 == "conflict"@ && p[3].0 == "note"@);
    assert("ours"@[0] != "note"@[0]);
    law_distinct_pairs_are_members(p);
}

/// A side that is no item is named in the refusal, ours before theirs.
pub proof fn law_the_unreadable_side_is_named(ours: Option<Seq<char>>, theirs: Option<Seq<char>>)
    ensures
        ours is None ==> refusal_note(ours, theirs) == Some("unparseable-ours"@),
        ours is Some && theirs is None ==> refusal_note(ours, theirs) == Some(
            "unparseable-theirs"@,
        ),
        ours is Some && theirs is Some ==> refusal_note(ours, theirs) is None,
{
}

/// A merge ends well only when neither the fields nor the text is in conflict.
pub proof fn law_a_conflict_anywhere_fails_the_merge(clean: bool, body_conflicted: bool)
    ensures
        merge_exit(clean, body_conflicted) == ExitCode::Success <==> clean && !body_conflicted,
        merge_exit(false, body_conflicted) == ExitCode::Usage,
        merge_exit(clean, true) == ExitCode::Usage,
{
}

} // verus!
