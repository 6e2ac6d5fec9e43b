//! `clove show`: one item in full.

use vstd::prelude::*;

use crate::cmd::listing::{fields_view, shape_object, shaped};
use crate::item_json::{copy_entries, Item, ItemView};
use crate::json::{
    entries, index_of, insert, law_put_then_lookup, lookup, num, number, put, string, strings,
    texts, Json, JsonView,
};
use crate::output::{
    law_a_success_carries_its_data, meta_without_warnings, success, success_envelope,
    warnings_meta, Out, OutView, OutputFormat,
};
use crate::text;

verus! {

/// An item with what is computed for it and what its page shows beside the line.
#[derive(Debug, PartialEq, Eq)]
pub struct Shown {
    pub item: Item,
    pub assignee: Option<String>,
    pub labels: Vec<String>,
    pub deps: Vec<String>,
    pub comment_count: usize,
    pub ready: bool,
    pub blocked_by: Vec<String>,
}

/// The model of a [`Shown`].
pub struct ShownView {
    pub item: ItemView,
    pub assignee: Option<Seq<char>>,
    pub labels: Seq<Seq<char>>,
    pub deps: Seq<Seq<char>>,
    pub comment_count: int,
    pub ready: bool,
    pub blocked_by: Seq<Seq<char>>,
}

impl DeepView for Shown {
    type V = ShownView;

    open spec fn deep_view(&self) -> ShownView {
        ShownView {
            item: self.item.deep_view(),
            assignee: self.assignee.deep_view(),
            labels: self.labels.deep_view(),
            deps: self.deps.deep_view(),
            comment_count: self.comment_count as int,
            ready: self.ready,
            blocked_by: self.blocked_by.deep_view(),
        }
    }
}

/// The entries of an item in full: the frontmatter, the body, and what is computed.
pub open spec fn full_item(s: ShownView) -> Seq<(Seq<char>, JsonView)> {
    put(
        put(
            put(
                put(s.item.frontmatter, "body"@, JsonView::Text(s.item.body)),
                "comment_count"@,
                num(s.comment_count),
            ),
            "ready"@,
            JsonView::Bool(s.ready),
        ),
        "blocked_by"@,
        texts(s.blocked_by),
    )
}

/// Builds the entries of an item in full.
pub fn full_object(s: &Shown) -> (r: Vec<(String, Json)>)
    ensures
        entries(r@) == full_item(s.deep_view()),
{
    let mut map = copy_entries(&s.item.frontmatter);
    insert(&mut map, "body".to_owned(), string(s.item.body.as_str()));
    insert(&mut map, "comment_count".to_owned(), number(s.comment_count as u64));
    insert(&mut map, "ready".to_owned(), Json::Bool(s.ready));
    insert(&mut map, "blocked_by".to_owned(), strings(&s.blocked_by));
    map
}

/// A line, if there is anything to say.
pub open spec fn line_if(say: bool, line: Seq<char>) -> Seq<OutView> {
    if say {
        seq![OutView::Text(line)]
    } else {
        Seq::empty()
    }
}

/// The line on readiness, where the projection kept the field.
pub open spec fn ready_lines(e: Seq<(Seq<char>, JsonView)>) -> Seq<OutView> {
    match lookup(e, "ready"@) {
        Some(v) => match v.truth() {
            Some(b) => seq![
                OutView::Text("  ready:    "@ + (if b {
                    "true"@
                } else {
                    "false"@
                })),
            ],
            None => Seq::empty(),
        },
        None => Seq::empty(),
    }
}

/// The head of the page of an item.
pub open spec fn head_lines(s: ShownView) -> Seq<OutView> {
    seq![
        OutView::Text(s.item.id + "  "@ + s.item.title),
        OutView::Text("  status:   "@ + s.item.status),
        OutView::Text("  type:     "@ + s.item.item_type),
        OutView::Text("  priority: "@ + text::decimal(s.item.priority as nat)),
    ]
}

/// What the page says of who works on an item and what it is linked to.
pub open spec fn link_lines(s: ShownView) -> Seq<OutView> {
    line_if(s.assignee is Some, "  assignee: "@ + s.assignee->0) + line_if(
        s.labels.len() > 0,
        "  labels:   "@ + text::joined(s.labels, ", "@),
    ) + line_if(s.deps.len() > 0, "  deps:     "@ + text::joined(s.deps, ", "@))
}

/// The end of the page of an item.
pub open spec fn tail_lines(s: ShownView) -> Seq<OutView> {
    seq![OutView::Text("  comments: "@ + text::decimal(s.comment_count as nat))] + line_if(
        text::trimmed(s.item.body).len() > 0,
        "\n"@ + text::trim_back(s.item.body),
    )
}

/// The page of an item.
pub open spec fn page_lines(s: ShownView, e: Seq<(Seq<char>, JsonView)>) -> Seq<OutView> {
    head_lines(s) + link_lines(s) + ready_lines(e) + tail_lines(s)
}

/// What is printed of an item.
pub open spec fn show_output(
    format: OutputFormat,
    s: ShownView,
    fields: Option<Seq<Seq<char>>>,
    compact: bool,
) -> Seq<OutView> {
    let e = shaped(full_item(s), fields, compact);
    if format == OutputFormat::Human {
        page_lines(s, e)
    } else {
        seq![OutView::Json(success(JsonView::Object(e), warnings_meta(Seq::empty())))]
    }
}

fn push_line(out: &mut Vec<Out>, line: String)
    ensures
        final(out).deep_view() == old(out).deep_view().push(OutView::Text(line@)),
{
    let ghost prev = out.deep_view();
    let ghost l = line@;
    out.push(Out::Text(line));
    assert(out.deep_view() =~= prev.push(OutView::Text(l)));
}

fn push_ready(out: &mut Vec<Out>, map: &Vec<(String, Json)>)
    ensures
        final(out).deep_view() == old(out).deep_view() + ready_lines(entries(map@)),
{
    let ghost prev = out.deep_view();
    assert(prev + Seq::<OutView>::empty() =~= prev);
    if let Some(i) = index_of(map, "ready") {
        if let Some(b) = map[i].1.as_bool() {
            let word = if b {
                "true"
            } else {
                "false"
            };
            push_line(out, text::cat2("  ready:    ", word));
            assert(out.deep_view() =~= prev + ready_lines(entries(map@)));
        }
    }
}

fn push_head(out: &mut Vec<Out>, s: &Shown)
    ensures
        final(out).deep_view() == old(out).deep_view() + head_lines(s.deep_view()),
{
    let ghost start = out.deep_view();
    push_line(out, text::cat3(s.item.id.as_str(), "  ", s.item.title.as_str()));
    push_line(out, text::cat2("  status:   ", s.item.status.as_str()));
    push_line(out, text::cat2("  type:     ", s.item.item_type.as_str()));
    let p = text::decimal_of(s.item.priority as u64);
    push_line(out, text::cat2("  priority: ", p.as_str()));
    assert(out.deep_view() =~= start + head_lines(s.deep_view()));
}

fn push_links(out: &mut Vec<Out>, s: &Shown)
    ensures
        final(out).deep_view() == old(out).deep_view() + link_lines(s.deep_view()),
{
    let ghost start = out.deep_view();
    let ghost v = s.deep_view();
    if let Some(a) = &s.assignee {
        push_line(out, text::cat2("  assignee: ", a.as_str()));
    }
    let ghost a = line_if(v.assignee is Some, "  assignee: "@ + v.assignee->0);
    assert(out.deep_view() =~= start + a);
    assert(v.labels.len() == s.labels.len());
    if s.labels.len() > 0 {
        let l = text::join(&s.labels, ", ");
        push_line(out, text::cat2("  labels:   ", l.as_str()));
    }
    let ghost b = line_if(v.labels.len() > 0, "  labels:   "@ + text::joined(v.labels, ", "@));
    assert(out.deep_view() =~= start + a + b);
    assert(v.deps.len() == s.deps.len());
    if s.deps.len() > 0 {
        let d = text::join(&s.deps, ", ");
        push_line(out, text::cat2("  deps:     ", d.as_str()));
    }
    assert(out.deep_view() =~= start + link_lines(v));
}

fn push_tail(out: &mut Vec<Out>, s: &Shown)
    ensures
        final(out).deep_view() == old(out).deep_view() + tail_lines(s.deep_view()),
{
    let ghost start = out.deep_view();
    let n = text::decimal_of(s.comment_count as u64);
    push_line(out, text::cat2("  comments: ", n.as_str()));
    if !text::trim(s.item.body.as_str()).is_empty() {
        push_line(out, text::cat2("\n", text::trim_end(s.item.body.as_str())));
    }
    assert(out.deep_view() =~= start + tail_lines(s.deep_view()));
}

/// Renders an item.
pub fn run(format: OutputFormat, s: &Shown, fields: Option<&Vec<String>>, compact: bool) -> (r: Vec<
    Out,
>)
    ensures
        r.deep_view() == show_output(format, s.deep_view(), fields_view(fields), compact),
{
    let full = full_object(s);
    let map = shape_object(&full, fields, compact);
    match format {
        OutputFormat::Human => {
            let mut out: Vec<Out> = Vec::new();
            push_head(&mut out, s);
            push_links(&mut out, s);
            push_ready(&mut out, &map);
            push_tail(&mut out, s);
            assert(out.deep_view() =~= page_lines(s.deep_view(), entries(map@)));
            out
        },
        _ => {
            proof {
                crate::json::lemma_object_shape(map);
            }
            let line = Out::Json(success_envelope(Json::Object(map), meta_without_warnings()));
            let ghost view = line.deep_view();
            let out: Vec<Out> = vec![line];
            assert(out.deep_view() =~= seq![view]);
            out
        },
    }
}

/// Readiness and what blocks an item are always computed.
pub proof fn law_show_always_tells_what_blocks(s: ShownView)
    ensures
        lookup(full_item(s), "ready"@) == Some(JsonView::Bool(s.ready)),
        lookup(full_item(s), "blocked_by"@) == Some(texts(s.blocked_by)),
{
    reveal_strlit("ready");
    reveal_strlit("blocked_by");
    let e1 = put(s.item.frontmatter, "body"@, JsonView::Text(s.item.body));
    let e2 = put(e1, "comment_count"@, num(s.comment_count));
    let e3 = put(e2, "ready"@, JsonView::Bool(s.ready));
    crate::json::law_put_then_lookup(e2, "ready"@, JsonView::Bool(s.ready), "ready"@);
    assert("ready"@.len() != "blocked_by"@.len());
    crate::json::law_put_then_lookup(e3, "blocked_by"@, texts(s.blocked_by), "ready"@);
}

// ---- What is shown of an item ---------------------------------------------------

/// The object of an item says all that its own fields say, its text, how many comments it
/// has, and whether and what it waits for.
pub proof fn law_an_item_is_shown_whole(s: ShownView, key: Seq<char>)
    ensures
        lookup(full_item(s), "body"@) == Some(JsonView::Text(s.item.body)),
        lookup(full_item(s), "comment_count"@) == Some(num(s.comment_count)),
        lookup(full_item(s), "ready"@) == Some(JsonView::Bool(s.ready)),
        lookup(full_item(s), "blocked_by"@) matches Some(JsonView::Array(by)) && by.len()
            == s.blocked_by.len() && forall|i: int|
            0 <= i < by.len() ==> #[trigger] by[i] == JsonView::Text(s.blocked_by[i]),
        key != "body"@ && key != "comment_count"@ && key != "ready"@ && key != "blocked_by"@
            ==> lookup(full_item(s), key) == lookup(s.item.frontmatter, key),
{
    reveal_strlit("body");
    reveal_strlit("comment_count");
    reveal_strlit("ready");
    reveal_strlit("blocked_by");
    assert("body"@.len() == 4 && "comment_count"@.len() == 13 && "ready"@.len() == 5
        && "blocked_by"@.len() == 10);
    let a = put(s.item.frontmatter, "body"@, JsonView::Text(s.item.body));
    let b = put(a, "comment_count"@, num(s.comment_count));
    let c = put(b, "ready"@, JsonView::Bool(s.ready));
    law_put_then_lookup(s.item.frontmatter, "body"@, JsonView::Text(s.item.body), key);
    law_put_then_lookup(a, "comment_count"@, num(s.comment_count), key);
    law_put_then_lookup(b, "ready"@, JsonView::Bool(s.ready), key);
    law_put_then_lookup(c, "blocked_by"@, texts(s.blocked_by), key);
    law_put_then_lookup(a, "comment_count"@, num(s.comment_count), "body"@);
    law_put_then_lookup(b, "ready"@, JsonView::Bool(s.ready), "body"@);
    law_put_then_lookup(c, "blocked_by"@, texts(s.blocked_by), "body"@);
    law_put_then_lookup(b, "ready"@, JsonView::Bool(s.ready), "comment_count"@);
    law_put_then_lookup(c, "blocked_by"@, texts(s.blocked_by), "comment_count"@);
    law_put_then_lookup(c, "blocked_by"@, texts(s.blocked_by), "ready"@);
}

/// The page of an item begins with its id and its title, its status, its type and its
/// priority, each on its line.
pub proof fn law_a_page_begins_with_the_item(s: ShownView, e: Seq<(Seq<char>, JsonView)>)
    ensures
        page_lines(s, e).len() >= 5,
        page_lines(s, e)[0] == OutView::Text(s.item.id + "  "@ + s.item.title),
        page_lines(s, e)[1] matches OutView::Text(t) && text::begins(t, "  status:"@) && text::ends(
            t,
            s.item.status,
        ),
        page_lines(s, e)[2] matches OutView::Text(t) && text::begins(t, "  type:"@) && text::ends(
            t,
            s.item.item_type,
        ),
        page_lines(s, e)[3] matches OutView::Text(t) && text::begins(t, "  priority:"@)
            && text::ends(t, text::decimal(s.item.priority as nat)),
{
    reveal_strlit("  status:   ");
    reveal_strlit("  status:");
    reveal_strlit("  type:     ");
    reveal_strlit("  type:");
    reveal_strlit("  priority: ");
    reveal_strlit("  priority:");
    let head = head_lines(s);
    assert(page_lines(s, e)[0] == head[0] && page_lines(s, e)[1] == head[1]);
    assert(page_lines(s, e)[2] == head[2] && page_lines(s, e)[3] == head[3]);
    lemma_line_parts("  status:   "@, "  status:"@, s.item.status);
    lemma_line_parts("  type:     "@, "  type:"@, s.item.item_type);
    lemma_line_parts("  priority: "@, "  priority:"@, text::decimal(s.item.priority as nat));
}

proof fn lemma_line_parts(front: Seq<char>, words: Seq<char>, said: Seq<char>)
    requires
        words.len() <= front.len(),
        front.take(words.len() as int) =~= words,
    ensures
        text::begins(front + said, words),
        text::ends(front + said, said),
{
    assert((front + said).take(words.len() as int) =~= words);
    assert((front + said).skip(front.len() as int) =~= said);
}

/// The page says who has the item, how it is labelled and what it depends on, all of each and
/// only where there is any; how many comments it has; and its text unless that is blank.
pub proof fn law_a_page_says_what_is_linked(
    s: ShownView,
    e: Seq<(Seq<char>, JsonView)>,
    i: int,
    j: int,
)
    ensures
        s.assignee matches Some(a) ==> link_lines(s).contains(OutView::Text("  assignee: "@ + a)),
        0 <= i < s.labels.len() ==> exists|k: int|
            0 <= k < link_lines(s).len() && (#[trigger] link_lines(s)[k] matches OutView::Text(t)
                && text::begins(t, "  labels:   "@) && text::occurs(t, s.labels[i])),
        0 <= j < s.deps.len() ==> exists|k: int|
            0 <= k < link_lines(s).len() && (#[trigger] link_lines(s)[k] matches OutView::Text(t)
                && text::begins(t, "  deps:     "@) && text::occurs(t, s.deps[j])),
        link_lines(s).len() == (if s.assignee is Some {
            1int
        } else {
            0
        }) + (if s.labels.len() > 0 {
            1int
        } else {
            0
        }) + (if s.deps.len() > 0 {
            1int
        } else {
            0
        }),
        tail_lines(s)[0] == OutView::Text("  comments: "@ + text::decimal(s.comment_count as nat)),
        tail_lines(s).len() == 2 <==> text::trimmed(s.item.body).len() > 0,
        tail_lines(s).len() == 2 ==> tail_lines(s)[1] == OutView::Text(
            "\n"@ + text::trim_back(s.item.body),
        ),
        page_lines(s, e) == head_lines(s) + link_lines(s) + ready_lines(e) + tail_lines(s),
{
    let links = link_lines(s);
    let n: int = if s.assignee is Some {
        1
    } else {
        0
    };
    let m: int = if s.labels.len() > 0 {
        1
    } else {
        0
    };
    if let Some(a) = s.assignee {
        assert(links[0] == OutView::Text("  assignee: "@ + a));
    }
    if 0 <= i < s.labels.len() {
        let all = text::joined(s.labels, ", "@);
        text::law_joined_parts_occur(s.labels, ", "@, i);
        text::lemma_occurs_in_back("  labels:   "@, all, s.labels[i]);
        let t = "  labels:   "@ + all;
        assert(t.take("  labels:   "@.len() as int) =~= "  labels:   "@);
        assert(links[n] == OutView::Text(t));
    }
    if 0 <= j < s.deps.len() {
        let all = text::joined(s.deps, ", "@);
        text::law_joined_parts_occur(s.deps, ", "@, j);
        text::lemma_occurs_in_back("  deps:     "@, all, s.deps[j]);
        let t = "  deps:     "@ + all;
        assert(t.take("  deps:     "@.len() as int) =~= "  deps:     "@);
        assert(links[n + m] == OutView::Text(t));
    }
}

/// Whether an item is ready is said as it is, unless it was left out of the fields.
pub proof fn law_a_page_says_whether_it_is_ready(e: Seq<(Seq<char>, JsonView)>, b: bool)
    ensures
        lookup(e, "ready"@) == Some(JsonView::Bool(b)) ==> ready_lines(e) == seq![
            OutView::Text("  ready:    "@ + (if b {
                "true"@
            } else {
                "false"@
            })),
        ],
        lookup(e, "ready"@) is None ==> ready_lines(e).len() == 0,
{
}

/// In JSON an item is shown with the fields that were asked for.
pub proof fn law_an_item_in_json_has_the_asked_fields(
    s: ShownView,
    fields: Option<Seq<Seq<char>>>,
    key: Seq<char>,
)
    ensures
        show_output(OutputFormat::Json, s, fields, false).len() == 1,
        show_output(OutputFormat::Json, s, fields, false)[0] matches OutView::Json(v) && (v.member(
            "data"@,
        ) matches Some(d) && d.member(key) == (if fields is None || fields->0.contains(key) {
            lookup(full_item(s), key)
        } else {
            None
        })),
{
    let e = shaped(full_item(s), fields, false);
    law_a_success_carries_its_data(JsonView::Object(e), warnings_meta(Seq::empty()));
    crate::cmd::listing::law_the_asked_fields_are_shown(full_item(s), fields, key);
}

} // verus!
