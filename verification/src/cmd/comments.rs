//! `clove comment` and `clove comments`.

use vstd::prelude::*;

use crate::json::{
    law_distinct_pairs_are_members, num, number, obj, object, string, strings, texts, Json,
    JsonView,
};
use crate::output::{
    law_a_success_carries_its_data, meta_without_warnings, pairs, success, success_envelope,
    warnings_meta, Out, OutView, OutputFormat,
};
use crate::text;

verus! {

/// The trimmed text of a source, if it has any.
pub open spec fn spoken(source: Option<Seq<char>>) -> Option<Seq<char>> {
    match source {
        Some(s) => if text::trimmed(s).len() > 0 {
            Some(text::trimmed(s))
        } else {
            None
        },
        None => None,
    }
}

/// The first source that is not blank, trimmed, or `unknown`.
pub open spec fn author_of(sources: Seq<Option<Seq<char>>>) -> Seq<char>
    decreases sources.len(),
{
    if sources.len() == 0 {
        "unknown"@
    } else if spoken(sources[0]) is Some {
        spoken(sources[0])->0
    } else {
        author_of(sources.drop_first())
    }
}

fn spoken_in(source: &Option<String>) -> (r: Option<String>)
    ensures
        r.deep_view() == spoken(source.deep_view()),
{
    match source {
        Some(s) => {
            let t = text::trim(s.as_str());
            if t.is_empty() {
                None
            } else {
                Some(t.to_owned())
            }
        },
        None => None,
    }
}

fn first_spoken(sources: &Vec<Option<String>>) -> (r: String)
    ensures
        r@ == author_of(sources.deep_view()),
{
    let ghost all = sources.deep_view();
    let mut i: usize = 0;
    assert(all.skip(0) =~= all);
    while i < sources.len()
        invariant
            i <= sources.len(),
            sources.deep_view() == all,
            author_of(all) == author_of(all.skip(i as int)),
        decreases sources.len() - i,
    {
        assert(all.skip(i as int)[0] == sources@[i as int].deep_view());
        assert(all.skip(i as int).drop_first() =~= all.skip(i + 1));
        if let Some(name) = spoken_in(&sources[i]) {
            return name;
        }
        i += 1;
    }
    "unknown".to_owned()
}

/// The author of a comment: the first source that is not blank, trimmed, of
/// `$CLOVE_AUTHOR`, `$GIT_AUTHOR_EMAIL`, git's `user.email` and `user.name`, and `$USER`;
/// `unknown` if all are.
pub fn resolve_author(
    clove_author: Option<String>,
    git_author_email: Option<String>,
    git_user_email: Option<String>,
    git_user_name: Option<String>,
    user: Option<String>,
) -> (r: String)
    ensures
        r@ == author_of(
            seq![
                clove_author.deep_view(),
                git_author_email.deep_view(),
                git_user_email.deep_view(),
                git_user_name.deep_view(),
                user.deep_view(),
            ],
        ),
{
    let ghost all = seq![
        clove_author.deep_view(),
        git_author_email.deep_view(),
        git_user_email.deep_view(),
        git_user_name.deep_view(),
        user.deep_view(),
    ];
    let sources: Vec<Option<String>> = vec![
        clove_author,
        git_author_email,
        git_user_email,
        git_user_name,
        user,
    ];
    assert(sources.deep_view() =~= all);
    first_spoken(&sources)
}

/// A blank source never hides the ones behind it, and the author is never blank.
pub proof fn law_the_author_is_never_blank(sources: Seq<Option<Seq<char>>>)
    ensures
        author_of(sources).len() > 0,
        sources.len() > 0 && spoken(sources[0]) is None ==> author_of(sources) == author_of(
            sources.drop_first(),
        ),
    decreases sources.len(),
{
    reveal_strlit("unknown");
    if sources.len() > 0 && spoken(sources[0]) is None {
        law_the_author_is_never_blank(sources.drop_first());
    }
}

/// What `git config --get` says: nothing if it failed or printed nothing but blanks.
pub fn git_config_value(success: bool, stdout: Option<String>) -> (r: Option<String>)
    ensures
        r.deep_view() == (if success {
            spoken(stdout.deep_view())
        } else {
            None
        }),
{
    if !success {
        return None;
    }
    spoken_in(&stdout)
}

/// What is printed once a comment was added.
pub open spec fn added_output(
    format: OutputFormat,
    id: Seq<char>,
    path: Seq<char>,
    quiet: bool,
) -> Seq<OutView> {
    if format == OutputFormat::Human {
        if quiet {
            Seq::empty()
        } else {
            seq![OutView::Text("added comment to "@ + id)]
        }
    } else {
        seq![
            OutView::Json(
                success(
                    obj(seq![("id"@, JsonView::Text(id)), ("path"@, JsonView::Text(path))]),
                    warnings_meta(Seq::empty()),
                ),
            ),
        ]
    }
}

/// What is printed of a comment that was added.
pub fn emit_added(format: OutputFormat, id: &str, path: &str, quiet: bool) -> (r: Vec<Out>)
    ensures
        r.deep_view() == added_output(format, id@, path@, quiet),
{
    let mut out: Vec<Out> = Vec::new();
    match format {
        OutputFormat::Human => {
            if !quiet {
                out.push(Out::Text(text::cat2("added comment to ", id)));
                assert(out.deep_view() =~= seq![OutView::Text("added comment to "@ + id@)]);
            } else {
                assert(out.deep_view() =~= Seq::<OutView>::empty());
            }
        },
        _ => {
            let v: Vec<(String, Json)> = vec![
                ("id".to_owned(), string(id)),
                ("path".to_owned(), string(path)),
            ];
            assert(pairs(v@) =~= seq![("id"@, JsonView::Text(id@)), ("path"@, JsonView::Text(path@))]);
            let line = Out::Json(success_envelope(object(v), meta_without_warnings()));
            let ghost view = line.deep_view();
            out.push(line);
            assert(out.deep_view() =~= seq![view]);
        },
    }
    out
}

// ---- Listing ------------------------------------------------------------------

/// How many comments are shown unless a limit is given.
pub const DEFAULT_LIMIT: usize = 100;

/// The limit in force.
pub open spec fn limit_in_force(limit: Option<usize>) -> int {
    match limit {
        Some(n) => n as int,
        None => DEFAULT_LIMIT as int,
    }
}

/// The comments that are shown of `total`, as a range: the newest, up to the limit,
/// without the `skip` newest ones. No limit is a limit of 0.
pub open spec fn shown_range(total: int, limit: int, skip: int) -> (int, int) {
    let end = if skip < total {
        total - skip
    } else {
        0
    };
    (
        if limit == 0 || limit >= end {
            0
        } else {
            end - limit
        },
        end,
    )
}

/// The range of the comments that are shown.
pub fn window(total: usize, limit: Option<usize>, skip_newest: Option<usize>) -> (r: (usize, usize))
    ensures
        (r.0 as int, r.1 as int) == shown_range(
            total as int,
            limit_in_force(limit),
            match skip_newest {
                Some(n) => n as int,
                None => 0,
            },
        ),
        r.0 <= r.1 <= total,
{
    let limit: usize = match limit {
        Some(n) => n,
        None => DEFAULT_LIMIT,
    };
    let skip: usize = match skip_newest {
        Some(n) => n,
        None => 0,
    };
    let end: usize = if skip < total {
        total - skip
    } else {
        0
    };
    let start: usize = if limit == 0 || limit >= end {
        0
    } else {
        end - limit
    };
    (start, end)
}

/// Paging back by the limit shows the comments right before those shown, and no comment
/// twice.
pub proof fn law_pages_of_comments_are_adjacent(total: int, limit: int, skip: int)
    requires
        0 <= total,
        0 < limit,
        0 <= skip,
        skip + limit < total,
    ensures
        shown_range(total, limit, skip + limit).1 == shown_range(total, limit, skip).0,
        shown_range(total, limit, skip).1 - shown_range(total, limit, skip).0 == limit,
{
}

/// A comment.
#[derive(Debug, PartialEq, Eq)]
pub struct Comment {
    pub author: String,
    pub timestamp: String,
    pub body: String,
}

/// The model of a [`Comment`].
pub struct CommentView {
    pub author: Seq<char>,
    pub timestamp: Seq<char>,
    pub body: Seq<char>,
}

impl DeepView for Comment {
    type V = CommentView;

    open spec fn deep_view(&self) -> CommentView {
        CommentView { author: self.author@, timestamp: self.timestamp@, body: self.body@ }
    }
}

/// The object of a comment.
pub open spec fn comment_object(c: CommentView) -> JsonView {
    obj(
        seq![
            ("author"@, JsonView::Text(c.author)),
            ("timestamp"@, JsonView::Text(c.timestamp)),
            ("body"@, JsonView::Text(c.body)),
        ],
    )
}

fn comment_json(c: &Comment) -> (r: Json)
    ensures
        r.shape() == comment_object(c.deep_view()),
{
    let v: Vec<(String, Json)> = vec![
        ("author".to_owned(), string(c.author.as_str())),
        ("timestamp".to_owned(), string(c.timestamp.as_str())),
        ("body".to_owned(), string(c.body.as_str())),
    ];
    assert(pairs(v@) =~= seq![
        ("author"@, JsonView::Text(c.author@)),
        ("timestamp"@, JsonView::Text(c.timestamp@)),
        ("body"@, JsonView::Text(c.body@)),
    ]);
    object(v)
}

/// The `_meta` of a list of comments: the whole thread's length and the window on it.
pub open spec fn thread_meta(total: int, returned: int, limit: int, skip: int) -> JsonView {
    obj(
        seq![
            ("total"@, num(total)),
            ("returned"@, num(returned)),
            ("limit"@, num(limit)),
            ("skip_newest"@, num(skip)),
            ("warnings"@, texts(Seq::empty())),
        ],
    )
}

/// The lines of the comments for people: when and who, what, and an empty line.
pub open spec fn comment_lines(cs: Seq<CommentView>) -> Seq<OutView>
    decreases cs.len(),
{
    if cs.len() == 0 {
        Seq::empty()
    } else {
        comment_lines(cs.drop_last()) + seq![
            OutView::Text(cs.last().timestamp + "  "@ + cs.last().author),
            OutView::Text(text::trim_back(cs.last().body)),
            OutView::Text(""@),
        ]
    }
}

/// What is printed of a thread.
pub open spec fn thread_output(
    format: OutputFormat,
    all: Seq<CommentView>,
    limit: Option<usize>,
    skip: Option<usize>,
) -> Seq<OutView> {
    let n = limit_in_force(limit);
    let k: int = match skip {
        Some(k) => k as int,
        None => 0,
    };
    let (start, end) = shown_range(all.len() as int, n, k);
    let shown = all.subrange(start, end);
    if format == OutputFormat::Human {
        comment_lines(shown)
    } else {
        seq![
            OutView::Json(
                success(
                    JsonView::Array(Seq::new(shown.len(), |i: int| comment_object(shown[i]))),
                    thread_meta(all.len() as int, shown.len() as int, n, k),
                ),
            ),
        ]
    }
}

/// Renders a thread, the comments in the order of their age.
pub fn render_list(
    format: OutputFormat,
    comments: &Vec<Comment>,
    limit: Option<usize>,
    skip_newest: Option<usize>,
) -> (r: Vec<Out>)
    ensures
        r.deep_view() == thread_output(format, comments.deep_view(), limit, skip_newest),
{
    let ghost all = comments.deep_view();
    let (start, end): (usize, usize) = window(comments.len(), limit, skip_newest);
    let ghost shown = all.subrange(start as int, end as int);
    assert(all.len() == comments.len());
    match format {
        OutputFormat::Human => {
            let mut out: Vec<Out> = Vec::new();
            let mut i: usize = start;
            assert(out.deep_view() =~= comment_lines(shown.take(0)));
            while i < end
                invariant
                    start <= i <= end <= comments.len(),
                    all == comments.deep_view(),
                    shown == all.subrange(start as int, end as int),
                    out.deep_view() == comment_lines(shown.take(i - start)),
                decreases end - i,
            {
                let ghost prev = out.deep_view();
                let c = &comments[i];
                assert(shown.take(i + 1 - start).drop_last() =~= shown.take(i - start));
                assert(shown.take(i + 1 - start).last() == c.deep_view());
                out.push(Out::Text(text::cat3(c.timestamp.as_str(), "  ", c.author.as_str())));
                out.push(Out::Text(text::trim_end(c.body.as_str()).to_owned()));
                out.push(Out::Text("".to_owned()));
                assert(out.deep_view() =~= prev + seq![
                    OutView::Text(c.timestamp@ + "  "@ + c.author@),
                    OutView::Text(text::trim_back(c.body@)),
                    OutView::Text(""@),
                ]);
                i += 1;
            }
            assert(shown.take(i - start) =~= shown);
            out
        },
        _ => {
            let mut items: Vec<Json> = Vec::new();
            let mut i: usize = start;
            while i < end
                invariant
                    start <= i <= end <= comments.len(),
                    all == comments.deep_view(),
                    shown == all.subrange(start as int, end as int),
                    items.len() == i - start,
                    forall|j: int|
                        0 <= j < i - start ==> (#[trigger] items@[j]).shape() == comment_object(
                            shown[j],
                        ),
                decreases end - i,
            {
                assert(shown[i - start] == comments@[i as int].deep_view());
                items.push(comment_json(&comments[i]));
                i += 1;
            }
            let n: usize = match limit {
                Some(n) => n,
                None => DEFAULT_LIMIT,
            };
            let k: usize = match skip_newest {
                Some(k) => k,
                None => 0,
            };
            let none: Vec<String> = Vec::new();
            assert(none.deep_view() =~= Seq::<Seq<char>>::empty());
            let returned: usize = end - start;
            let m: Vec<(String, Json)> = vec![
                ("total".to_owned(), number(comments.len() as u64)),
                ("returned".to_owned(), number(returned as u64)),
                ("limit".to_owned(), number(n as u64)),
                ("skip_newest".to_owned(), number(k as u64)),
                ("warnings".to_owned(), strings(&none)),
            ];
            assert(pairs(m@) =~= seq![
                ("total"@, num(comments.len() as int)),
                ("returned"@, num(returned as int)),
                ("limit"@, num(n as int)),
                ("skip_newest"@, num(k as int)),
                ("warnings"@, texts(Seq::empty())),
            ]);
            proof {
                crate::json::lemma_array_shape(items);
                assert(items.deep_view() =~= Seq::new(
                    shown.len(),
                    |i: int| comment_object(shown[i]),
                ));
            }
            let line = Out::Json(success_envelope(Json::Array(items), object(m)));
            let ghost view = line.deep_view();
            let out: Vec<Out> = vec![line];
            assert(out.deep_view() =~= seq![view]);
            out
        },
    }
}

/// A comment in JSON says who wrote it, when, and what.
pub proof fn law_a_comment_is_shown_whole(c: CommentView)
    ensures
        comment_object(c).member("author"@) == Some(JsonView::Text(c.author)),
        comment_object(c).member("timestamp"@) == Some(JsonView::Text(c.timestamp)),
        comment_object(c).member("body"@) == Some(JsonView::Text(c.body)),
{
    reveal_strlit("author");
    reveal_strlit("timestamp");
    reveal_strlit("body");
    let p = seq![
        ("author"@, JsonView::Text(c.author)),
        ("timestamp"@, JsonView::Text(c.timestamp)),
        ("body"@, JsonView::Text(c.body)),
    ];
    assert(comment_object(c) == obj(p));
    assert(p[0].0 == "author"@ && p[1].0 == "timestamp"@ && p[2].0 == "body"@);
    law_distinct_pairs_are_members(p);
}

/// A thread says how many comments it has, how many are shown, and by what limit and how many
/// of the newest were left out.
pub proof fn law_a_thread_says_how_much_of_it_is_shown(total: int, returned: int, limit: int, skip: int)
    ensures
        thread_meta(total, returned, limit, skip).member("total"@) == Some(num(total)),
        thread_meta(total, returned, limit, skip).member("returned"@) == Some(num(returned)),
        thread_meta(total, returned, limit, skip).member("limit"@) == Some(num(limit)),
        thread_meta(total, returned, limit, skip).member("skip_newest"@) == Some(num(skip)),
        thread_meta(total, returned, limit, skip).member("warnings"@) == Some(texts(Seq::empty())),
{
    reveal_strlit("total");
    reveal_strlit("returned");
    reveal_strlit("limit");
    reveal_strlit("skip_newest");
    reveal_strlit("warnings");
    let p = seq![
        ("total"@, num(total)),
        ("returned"@, num(returned)),
        ("limit"@, num(limit)),
        ("skip_newest"@, num(skip)),
        ("warnings"@, texts(Seq::empty())),
    ];
    assert(thread_meta(total, returned, limit, skip) == obj(p));
    assert(p[0].0 == "total"@ && p[1].0 == "returned"@ && p[2].0 == "limit"@ && p[3].0 == "skip_newest"@ && p[4].0 == "warnings"@);
    assert("total"@[0] != "limit"@[0]);
    assert("returned"@[0] != "warnings"@[0]);
    assert forall|i: int, j: int| 0 <= i < j < p.len() implies (#[trigger] p[i]).0 != (
    #[trigger] p[j]).0 by {
        assert(i == 0 || i == 1 || i == 2 || i == 3);
        assert(j == 1 || j == 2 || j == 3 || j == 4);
    }
    law_distinct_pairs_are_members(p);
}

/// The newest comments are shown: the last of those that are not skipped, no more than the
/// limit, and all of them where the limit is 0.
pub proof fn law_the_newest_comments_are_shown(total: int, limit: int, skip: int)
    requires
        0 <= total,
        0 <= limit,
        0 <= skip,
    ensures
        ({
            let (start, end) = shown_range(total, limit, skip);
            &&& 0 <= start <= end <= total
            &&& skip <= total ==> end == total - skip
            &&& skip > total ==> end == 0
            &&& limit == 0 ==> start == 0
            &&& limit > 0 ==> end - start <= limit
            &&& limit > 0 && start > 0 ==> end - start == limit
        }),
{
}

proof fn lemma_comment_lines(cs: Seq<CommentView>, i: int)
    requires
        0 <= i < cs.len(),
    ensures
        comment_lines(cs).len() == 3 * cs.len(),
        comment_lines(cs)[3 * i] == OutView::Text(cs[i].timestamp + "  "@ + cs[i].author),
        comment_lines(cs)[3 * i + 1] == OutView::Text(text::trim_back(cs[i].body)),
    decreases cs.len(),
{
    let init = cs.drop_last();
    if init.len() > 0 {
        lemma_comment_lines(init, if i < init.len() {
            i
        } else {
            0
        });
    } else {
        assert(comment_lines(init).len() == 0);
    }
    if i < init.len() {
        assert(init[i] == cs[i]);
        assert(comment_lines(cs)[3 * i] == comment_lines(init)[3 * i]);
        assert(comment_lines(cs)[3 * i + 1] == comment_lines(init)[3 * i + 1]);
    }
}

/// Every comment of the part that is shown is shown, in its order: to people with when, who
/// and what, and in JSON as its object.
pub proof fn law_every_shown_comment_is_printed(
    all: Seq<CommentView>,
    limit: Option<usize>,
    skip: Option<usize>,
    i: int,
)
    requires
        ({
            let (start, end) = shown_range(
                all.len() as int,
                limit_in_force(limit),
                match skip {
                    Some(k) => k as int,
                    None => 0,
                },
            );
            start <= i < end
        }),
    ensures
        ({
            let (start, end) = shown_range(
                all.len() as int,
                limit_in_force(limit),
                match skip {
                    Some(k) => k as int,
                    None => 0,
                },
            );
            let c = all[i];
            let human = thread_output(OutputFormat::Human, all, limit, skip);
            &&& human.len() == 3 * (end - start)
            &&& human[3 * (i - start)] == OutView::Text(c.timestamp + "  "@ + c.author)
            &&& human[3 * (i - start) + 1] == OutView::Text(text::trim_back(c.body))
            &&& thread_output(OutputFormat::Json, all, limit, skip)[0] matches OutView::Json(v)
                && (v.member("data"@) matches Some(JsonView::Array(items)) && items.len() == end
                - start && items[i - start] == comment_object(c)) && (v.member("_meta"@) matches Some(
                m,
            ) && m.member("total"@) == Some(num(all.len() as int)) && m.member("returned"@) == Some(
                num(end - start),
            ))
        }),
{
    let n = limit_in_force(limit);
    let k: int = match skip {
        Some(k) => k as int,
        None => 0,
    };
    let (start, end) = shown_range(all.len() as int, n, k);
    law_the_newest_comments_are_shown(all.len() as int, n, k);
    let shown = all.subrange(start, end);
    lemma_comment_lines(shown, i - start);
    law_a_thread_says_how_much_of_it_is_shown(all.len() as int, shown.len() as int, n, k);
    law_a_success_carries_its_data(
        JsonView::Array(Seq::new(shown.len(), |i: int| comment_object(shown[i]))),
        thread_meta(all.len() as int, shown.len() as int, n, k),
    );
}

/// The author is the first source that says something, without the white space around it; the
/// sources behind it do not count.
pub proof fn law_the_first_named_author_counts(sources: Seq<Option<Seq<char>>>, k: int)
    requires
        0 <= k < sources.len(),
        forall|j: int|
            0 <= j < k ==> (#[trigger] sources[j] is None || text::trimmed(sources[j]->0).len()
                == 0),
        sources[k] is Some,
        text::trimmed(sources[k]->0).len() > 0,
    ensures
        author_of(sources) == text::trimmed(sources[k]->0),
    decreases k,
{
    if k > 0 {
        let rest = sources.drop_first();
        assert(sources[0] is None || text::trimmed(sources[0]->0).len() == 0);
        assert forall|j: int| 0 <= j < k - 1 implies (#[trigger] rest[j] is None || text::trimmed(
            rest[j]->0,
        ).len() == 0) by {
            assert(rest[j] == sources[j + 1]);
        }
        assert(rest[k - 1] == sources[k]);
        law_the_first_named_author_counts(rest, k - 1);
    }
}

/// A comment that was added is told of with its item, and in JSON with its file.
pub proof fn law_an_added_comment_is_told_of(id: Seq<char>, path: Seq<char>, quiet: bool)
    ensures
        added_output(OutputFormat::Human, id, path, false) == seq![
            OutView::Text("added comment to "@ + id),
        ],
        added_output(OutputFormat::Human, id, path, true).len() == 0,
        added_output(OutputFormat::Json, id, path, quiet)[0] matches OutView::Json(v) && (v.member(
            "data"@,
        ) matches Some(d) && d.member("id"@) == Some(JsonView::Text(id)) && d.member("path"@)
            == Some(JsonView::Text(path))),
{
    let d = obj(seq![("id"@, JsonView::Text(id)), ("path"@, JsonView::Text(path))]);
    reveal_strlit("id");
    reveal_strlit("path");
    let p = seq![
        ("id"@, JsonView::Text(id)),
        ("path"@, JsonView::Text(path)),
    ];
    assert(d == obj(p));
    assert(p[0].0 == "id"@ && p[1].0 == "path"@);
    law_distinct_pairs_are_members(p);
    law_a_success_carries_its_data(d, warnings_meta(Seq::empty()));
}

} // verus!
