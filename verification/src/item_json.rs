//! Items as they are printed.
//!
//! An item's object is its serialized frontmatter; commands add computed fields to it
//! and may project it down to a subset.

use vstd::prelude::*;

use crate::json::{
    entries, index_of, insert, law_put_then_lookup, lookup, num, number, put, string, strings,
    texts, Json, JsonView,
};
use crate::output::{
    meta_without_warnings, success, success_envelope, warnings_meta, Out, OutView, OutputFormat,
};
use crate::text;

verus! {

/// An item: what a line shows of it, its body, and the whole of its frontmatter.
#[derive(Debug, PartialEq, Eq)]
pub struct Item {
    pub id: String,
    pub status: String,
    pub priority: u8,
    pub item_type: String,
    pub title: String,
    pub body: String,
    /// The entries of the serialized frontmatter, in the order of their keys.
    pub frontmatter: Vec<(String, Json)>,
}

/// The model of an [`Item`].
pub struct ItemView {
    pub id: Seq<char>,
    pub status: Seq<char>,
    pub priority: u8,
    pub item_type: Seq<char>,
    pub title: Seq<char>,
    pub body: Seq<char>,
    pub frontmatter: Seq<(Seq<char>, JsonView)>,
}

impl DeepView for Item {
    type V = ItemView;

    open spec fn deep_view(&self) -> ItemView {
        ItemView {
            id: self.id@,
            status: self.status@,
            priority: self.priority,
            item_type: self.item_type@,
            title: self.title@,
            body: self.body@,
            frontmatter: entries(self.frontmatter@),
        }
    }
}

pub fn copy_entries(v: &Vec<(String, Json)>) -> (r: Vec<(String, Json)>)
    ensures
        entries(r@) == entries(v@),
{
    let mut out: Vec<(String, Json)> = Vec::new();
    let mut i: usize = 0;
    while i < v.len()
        invariant
            i <= v.len(),
            out.len() == i,
            forall|j: int|
                0 <= j < i ==> (#[trigger] out@[j]).0@ == v@[j].0@ && out@[j].1.shape()
                    == v@[j].1.shape(),
        decreases v.len() - i,
    {
        out.push((v[i].0.clone(), v[i].1.copy()));
        i += 1;
    }
    assert(entries(out@) =~= entries(v@));
    out
}

/// The entries with `extra` put in, one by one.
pub open spec fn extended(
    base: Seq<(Seq<char>, JsonView)>,
    extra: Seq<(Seq<char>, JsonView)>,
) -> Seq<(Seq<char>, JsonView)>
    decreases extra.len(),
{
    if extra.len() == 0 {
        base
    } else {
        put(extended(base, extra.drop_last()), extra.last().0, extra.last().1)
    }
}

fn extend(base: &mut Vec<(String, Json)>, extra: &Vec<(String, Json)>)
    ensures
        entries(final(base)@) == extended(entries(old(base)@), entries(extra@)),
{
    let ghost start = entries(base@);
    let ghost all = entries(extra@);
    let mut i: usize = 0;
    assert(extended(start, all.take(0)) == start);
    while i < extra.len()
        invariant
            i <= extra.len(),
            all == entries(extra@),
            entries(base@) == extended(start, all.take(i as int)),
        decreases extra.len() - i,
    {
        assert(all.take(i + 1).drop_last() =~= all.take(i as int));
        assert(all[i as int] == (extra@[i as int].0@, extra@[i as int].1.shape()));
        insert(base, extra[i].0.clone(), extra[i].1.copy());
        i += 1;
    }
    assert(all.take(i as int) =~= all);
}

/// What an item waits for: the dependencies that are open, and those that are missing.
pub struct BlockView {
    pub blocking: Seq<Seq<char>>,
    pub dangling: Seq<Seq<char>>,
}

/// The computed fields of an item in an export, in the order they are put in.
pub open spec fn computed(
    body: Seq<char>,
    comment_count: int,
    ready: bool,
    blocked: Option<BlockView>,
) -> Seq<(Seq<char>, JsonView)> {
    seq![
        ("body"@, JsonView::Text(body)),
        ("comment_count"@, num(comment_count)),
        ("ready"@, JsonView::Bool(ready)),
        (
            "blocked_by"@,
            texts(
                match blocked {
                    Some(b) => b.blocking + b.dangling,
                    None => Seq::empty(),
                },
            ),
        ),
        (
            "dangling_deps"@,
            texts(
                match blocked {
                    Some(b) => b.dangling,
                    None => Seq::empty(),
                },
            ),
        ),
    ]
}

/// The full item object: the frontmatter with the computed fields put in. It is the shape
/// of `clove show --format json` and of an exported item. `blocked` holds the open and
/// the missing dependencies of an item that waits.
pub fn export_object(
    item: &Item,
    comment_count: usize,
    ready: bool,
    blocked: Option<(&Vec<String>, &Vec<String>)>,
) -> (r: Json)
    ensures
        r.shape() == JsonView::Object(
            extended(
                item.deep_view().frontmatter,
                computed(
                    item.body@,
                    comment_count as int,
                    ready,
                    match blocked {
                        Some((b, d)) => Some(
                            BlockView { blocking: b.deep_view(), dangling: d.deep_view() },
                        ),
                        None => None,
                    },
                ),
            ),
        ),
{
    let mut all: Vec<String> = Vec::new();
    let mut missing: Vec<String> = Vec::new();
    if let Some((b, d)) = blocked {
        all = crate::plugin::plugin_argv(b, d);
        missing = crate::registry::copy_strings(d);
    }
    let ghost view = match blocked {
        Some((b, d)) => Some(BlockView { blocking: b.deep_view(), dangling: d.deep_view() }),
        None => None,
    };
    assert(blocked is None ==> all.deep_view() =~= Seq::<Seq<char>>::empty());
    assert(blocked is None ==> missing.deep_view() =~= Seq::<Seq<char>>::empty());
    let extra: Vec<(String, Json)> = vec![
        ("body".to_owned(), string(item.body.as_str())),
        ("comment_count".to_owned(), number(comment_count as u64)),
        ("ready".to_owned(), Json::Bool(ready)),
        ("blocked_by".to_owned(), strings(&all)),
        ("dangling_deps".to_owned(), strings(&missing)),
    ];
    assert(entries(extra@) =~= computed(item.body@, comment_count as int, ready, view));
    let mut map = copy_entries(&item.frontmatter);
    extend(&mut map, &extra);
    proof {
        crate::json::lemma_object_shape(map);
    }
    Json::Object(map)
}

/// Every exported item says whether it is ready.
pub proof fn law_exports_carry_the_computed_fields(
    frontmatter: Seq<(Seq<char>, JsonView)>,
    body: Seq<char>,
    comment_count: int,
    ready: bool,
    blocked: Option<BlockView>,
)
    ensures
        ({
            let e = extended(frontmatter, computed(body, comment_count, ready, blocked));
            &&& lookup(e, "body"@) == Some(JsonView::Text(body))
            &&& lookup(e, "comment_count"@) == Some(num(comment_count))
            &&& lookup(e, "ready"@) == Some(JsonView::Bool(ready))
        }),
{
    let c = computed(body, comment_count, ready, blocked);
    reveal_strlit("body");
    reveal_strlit("comment_count");
    reveal_strlit("ready");
    reveal_strlit("blocked_by");
    reveal_strlit("dangling_deps");
    assert("body"@.len() == 4 && "comment_count"@.len() == 13 && "ready"@.len() == 5
        && "blocked_by"@.len() == 10 && "dangling_deps"@.len() == 13);
    assert("comment_count"@[0] != "dangling_deps"@[0]);
    let e1 = put(frontmatter, c[0].0, c[0].1);
    let e2 = put(e1, c[1].0, c[1].1);
    let e3 = put(e2, c[2].0, c[2].1);
    let e4 = put(e3, c[3].0, c[3].1);
    let e5 = put(e4, c[4].0, c[4].1);
    reveal_with_fuel(extended, 6);
    assert(c.drop_last() =~= c.take(4));
    assert(c.take(4).drop_last() =~= c.take(3));
    assert(c.take(3).drop_last() =~= c.take(2));
    assert(c.take(2).drop_last() =~= c.take(1));
    assert(c.take(1).drop_last() =~= c.take(0));
    assert(extended(frontmatter, c) == e5);
    crate::json::law_put_then_lookup(frontmatter, c[0].0, c[0].1, "body"@);
    crate::json::law_put_then_lookup(e1, c[1].0, c[1].1, "body"@);
    crate::json::law_put_then_lookup(e2, c[2].0, c[2].1, "body"@);
    crate::json::law_put_then_lookup(e3, c[3].0, c[3].1, "body"@);
    crate::json::law_put_then_lookup(e4, c[4].0, c[4].1, "body"@);
    crate::json::law_put_then_lookup(e2, c[2].0, c[2].1, "comment_count"@);
    crate::json::law_put_then_lookup(e3, c[3].0, c[3].1, "comment_count"@);
    crate::json::law_put_then_lookup(e4, c[4].0, c[4].1, "comment_count"@);
    crate::json::law_put_then_lookup(e3, c[3].0, c[3].1, "ready"@);
    crate::json::law_put_then_lookup(e4, c[4].0, c[4].1, "ready"@);
}

/// The entries that are named in `fields`, for the fields that are there.
pub open spec fn projected(
    e: Seq<(Seq<char>, JsonView)>,
    fields: Seq<Seq<char>>,
) -> Seq<(Seq<char>, JsonView)>
    decreases fields.len(),
{
    if fields.len() == 0 {
        Seq::empty()
    } else {
        let rest = projected(e, fields.drop_last());
        match lookup(e, fields.last()) {
            Some(v) => put(rest, fields.last(), v),
            None => rest,
        }
    }
}

/// Restricts an object to the keys named in `fields`. Unknown names are ignored.
pub fn project(map: &Vec<(String, Json)>, fields: &Vec<String>) -> (r: Vec<(String, Json)>)
    ensures
        entries(r@) == projected(entries(map@), fields.deep_view()),
{
    let ghost e = entries(map@);
    let ghost names = fields.deep_view();
    let mut out: Vec<(String, Json)> = Vec::new();
    let mut i: usize = 0;
    assert(entries(out@) =~= projected(e, names.take(0)));
    while i < fields.len()
        invariant
            i <= fields.len(),
            e == entries(map@),
            names == fields.deep_view(),
            entries(out@) == projected(e, names.take(i as int)),
        decreases fields.len() - i,
    {
        assert(names.take(i + 1).drop_last() =~= names.take(i as int));
        assert(names[i as int] == fields@[i as int]@);
        if let Some(k) = index_of(map, fields[i].as_str()) {
            insert(&mut out, fields[i].clone(), map[k].1.copy());
        }
        i += 1;
    }
    assert(names.take(i as int) =~= names);
    out
}

/// A projection holds what the object holds under each named key, and nothing else.
pub proof fn law_projection_keeps_the_named_fields(
    e: Seq<(Seq<char>, JsonView)>,
    fields: Seq<Seq<char>>,
    key: Seq<char>,
)
    ensures
        lookup(projected(e, fields), key) == (if fields.contains(key) {
            lookup(e, key)
        } else {
            None
        }),
    decreases fields.len(),
{
    if fields.len() > 0 {
        let init = fields.drop_last();
        law_projection_keeps_the_named_fields(e, init, key);
        let rest = projected(e, init);
        if let Some(v) = lookup(e, fields.last()) {
            crate::json::law_put_then_lookup(rest, fields.last(), v, key);
        }
        assert(fields.contains(key) <==> init.contains(key) || key == fields.last()) by {
            if init.contains(key) {
                let k = choose|k: int| 0 <= k < init.len() && init[k] == key;
                assert(fields[k] == key);
            }
            if fields.contains(key) && key != fields.last() {
                let k = choose|k: int| 0 <= k < fields.len() && fields[k] == key;
                assert(init[k] == key);
            }
            assert(fields[fields.len() - 1] == fields.last());
        }
    }
}

/// The one-line rendering of an item for people.
pub open spec fn item_told(i: ItemView) -> Seq<char> {
    i.id + "  ["@ + i.status + "] p"@ + text::decimal(i.priority as nat) + " "@ + i.item_type
        + "  "@ + i.title
}

/// A compact one-line rendering of an item.
pub fn human_line(item: &Item) -> (r: String)
    ensures
        r@ == item_told(item.deep_view()),
{
    let p = text::decimal_of(item.priority as u64);
    let head = text::cat7(
        item.id.as_str(),
        "  [",
        item.status.as_str(),
        "] p",
        p.as_str(),
        " ",
        item.item_type.as_str(),
    );
    text::cat3(head.as_str(), "  ", item.title.as_str())
}

/// What is printed of an item after it was changed: the whole object in a JSON format, or
/// a line. `extra` is put into the object.
pub fn print_item(format: OutputFormat, item: &Item, extra: &Vec<(String, Json)>) -> (r: Vec<Out>)
    ensures
        r.deep_view() == seq![
            if format == OutputFormat::Human {
                OutView::Text(item_told(item.deep_view()))
            } else {
                OutView::Json(
                    success(
                        JsonView::Object(
                            extended(item.deep_view().frontmatter, entries(extra@)),
                        ),
                        warnings_meta(Seq::empty()),
                    ),
                )
            },
        ],
{
    let line: Out = match format {
        OutputFormat::Human => Out::Text(human_line(item)),
        _ => {
            let mut map = copy_entries(&item.frontmatter);
            extend(&mut map, extra);
            proof {
                crate::json::lemma_object_shape(map);
            }
            Out::Json(success_envelope(Json::Object(map), meta_without_warnings()))
        },
    };
    let ghost view = line.deep_view();
    let out: Vec<Out> = vec![line];
    assert(out.deep_view() =~= seq![view]);
    out
}

/// The field names in a comma-separated list: trimmed, without the empty ones.
pub open spec fn field_names(parts: Seq<Seq<char>>) -> Seq<Seq<char>>
    decreases parts.len(),
{
    if parts.len() == 0 {
        Seq::empty()
    } else {
        let rest = field_names(parts.drop_last());
        let name = text::trimmed(parts.last());
        if name.len() > 0 {
            rest.push(name)
        } else {
            rest
        }
    }
}

/// Reads a comma-separated `--fields` list.
pub fn parse_fields(raw: &str) -> (r: Vec<String>)
    ensures
        r.deep_view() == field_names(text::pieces(raw@, ',')),
{
    let parts = text::split(raw, ',');
    let ghost all = parts.deep_view();
    let mut out: Vec<String> = Vec::new();
    let mut i: usize = 0;
    assert(out.deep_view() =~= field_names(all.take(0)));
    while i < parts.len()
        invariant
            i <= parts.len(),
            all == parts.deep_view(),
            out.deep_view() == field_names(all.take(i as int)),
        decreases parts.len() - i,
    {
        let ghost prev = out.deep_view();
        assert(all.take(i + 1).drop_last() =~= all.take(i as int));
        assert(all[i as int] == parts@[i as int]@);
        let name = text::trim(parts[i].as_str());
        if !name.is_empty() {
            out.push(name.to_owned());
            assert(out.deep_view() =~= prev.push(name@));
        }
        i += 1;
    }
    assert(all.take(i as int) =~= all);
    out
}

proof fn lemma_extended_lookup(
    base: Seq<(Seq<char>, JsonView)>,
    extra: Seq<(Seq<char>, JsonView)>,
    key: Seq<char>,
)
    ensures
        (forall|j: int| 0 <= j < extra.len() ==> (#[trigger] extra[j]).0 != key) ==> lookup(
            extended(base, extra),
            key,
        ) == lookup(base, key),
        forall|i: int|
            0 <= i < extra.len() && (#[trigger] extra[i]).0 == key && (forall|j: int|
                i < j < extra.len() ==> (#[trigger] extra[j]).0 != key) ==> lookup(
                extended(base, extra),
                key,
            ) == Some(extra[i].1),
    decreases extra.len(),
{
    if extra.len() > 0 {
        let init = extra.drop_last();
        lemma_extended_lookup(base, init, key);
        law_put_then_lookup(extended(base, init), extra.last().0, extra.last().1, key);
        if extra.last().0 != key {
            assert forall|i: int|
                0 <= i < extra.len() && (#[trigger] extra[i]).0 == key && (forall|j: int|
                    i < j < extra.len() ==> (#[trigger] extra[j]).0 != key) implies lookup(
                extended(base, extra),
                key,
            ) == Some(extra[i].1) by {
                assert(init[i] == extra[i]);
                assert forall|j: int| i < j < init.len() implies (#[trigger] init[j]).0 != key by {
                    assert(init[j] == extra[j]);
                }
            }
            if forall|j: int| 0 <= j < extra.len() ==> (#[trigger] extra[j]).0 != key {
                assert forall|j: int| 0 <= j < init.len() implies (#[trigger] init[j]).0 != key by {
                    assert(init[j] == extra[j]);
                }
            }
        } else {
            assert(extra[extra.len() - 1].0 == key);
        }
    }
}

/// What is added to an object is in it, and what has another key stays as it was.
pub proof fn law_additions_replace_only_their_keys(
    base: Seq<(Seq<char>, JsonView)>,
    extra: Seq<(Seq<char>, JsonView)>,
    key: Seq<char>,
    i: int,
)
    ensures
        (forall|j: int| 0 <= j < extra.len() ==> (#[trigger] extra[j]).0 != key) ==> lookup(
            extended(base, extra),
            key,
        ) == lookup(base, key),
        0 <= i < extra.len() && extra[i].0 == key && (forall|j: int|
            i < j < extra.len() ==> (#[trigger] extra[j]).0 != key) ==> lookup(
            extended(base, extra),
            key,
        ) == Some(extra[i].1),
{
    lemma_extended_lookup(base, extra, key);
}

/// An exported item waits for its open and its missing dependencies, and the missing ones are
/// told apart; one that waits for nothing says so. What its own fields say is kept.
pub proof fn law_exports_tell_what_an_item_waits_for(
    frontmatter: Seq<(Seq<char>, JsonView)>,
    body: Seq<char>,
    comment_count: int,
    ready: bool,
    blocked: Option<BlockView>,
    key: Seq<char>,
)
    requires
        key != "body"@,
        key != "comment_count"@,
        key != "ready"@,
        key != "blocked_by"@,
        key != "dangling_deps"@,
    ensures
        ({
            let e = extended(frontmatter, computed(body, comment_count, ready, blocked));
            &&& lookup(e, key) == lookup(frontmatter, key)
            &&& lookup(e, "blocked_by"@) matches Some(JsonView::Array(by)) && lookup(
                e,
                "dangling_deps"@,
            ) matches Some(JsonView::Array(gone)) && match blocked {
                None => by.len() == 0 && gone.len() == 0,
                Some(b) => {
                    &&& by.len() == b.blocking.len() + b.dangling.len()
                    &&& gone.len() == b.dangling.len()
                    &&& forall|i: int|
                        0 <= i < b.blocking.len() ==> by[i] == JsonView::Text(
                            #[trigger] b.blocking[i],
                        )
                    &&& forall|i: int|
                        0 <= i < b.dangling.len() ==> by[b.blocking.len() + i] == JsonView::Text(
                            #[trigger] b.dangling[i],
                        ) && gone[i] == JsonView::Text(b.dangling[i])
                },
            }
        }),
{
    let extra = computed(body, comment_count, ready, blocked);
    reveal_strlit("body");
    reveal_strlit("comment_count");
    reveal_strlit("ready");
    reveal_strlit("blocked_by");
    reveal_strlit("dangling_deps");
    assert("comment_count"@[0] != "dangling_deps"@[0]);
    assert(extra[0].0 == "body"@ && extra[1].0 == "comment_count"@ && extra[2].0 == "ready"@);
    assert(extra[3].0 == "blocked_by"@ && extra[4].0 == "dangling_deps"@);
    assert(extra.len() == 5);
    assert forall|j: int| 0 <= j < extra.len() implies (#[trigger] extra[j]).0 != key by {
        assert(j == 0 || j == 1 || j == 2 || j == 3 || j == 4);
    }
    lemma_extended_lookup(frontmatter, extra, key);
    lemma_extended_lookup(frontmatter, extra, "blocked_by"@);
    lemma_extended_lookup(frontmatter, extra, "dangling_deps"@);
    assert(extra[4].0 != "blocked_by"@);
    assert(forall|j: int| 3 < j < extra.len() ==> (#[trigger] extra[j]).0 != "blocked_by"@);
}

/// The line of an item begins with its id, its status, its priority and its type, and ends
/// with its title.
pub proof fn law_an_item_line_shows_the_item(i: ItemView)
    ensures
        text::begins(
            item_told(i),
            i.id + "  ["@ + i.status + "] p"@ + text::decimal(i.priority as nat) + " "@
                + i.item_type + "  "@,
        ),
        text::ends(item_told(i), "  "@ + i.title),
{
    let front = i.id + "  ["@ + i.status + "] p"@ + text::decimal(i.priority as nat) + " "@
        + i.item_type + "  "@;
    let s = item_told(i);
    assert(s =~= front + i.title);
    assert(s.take(front.len() as int) =~= front);
    let back = "  "@ + i.title;
    assert(s.skip(s.len() - back.len()) =~= back);
}

/// The fields that are asked for are the parts of the text between its commas, without the
/// white space around them and without those that are empty, in their order.
pub proof fn law_asked_fields_are_the_parts(parts: Seq<Seq<char>>, name: Seq<char>)
    ensures
        field_names(parts).contains(name) <==> name.len() > 0 && exists|i: int|
            0 <= i < parts.len() && text::trimmed(#[trigger] parts[i]) == name,
    decreases parts.len(),
{
    if parts.len() > 0 {
        let init = parts.drop_last();
        law_asked_fields_are_the_parts(init, name);
        let rest = field_names(init);
        let all = field_names(parts);
        let last = text::trimmed(parts.last());
        if all.contains(name) {
            let k = choose|k: int| 0 <= k < all.len() && all[k] == name;
            if k < rest.len() {
                assert(rest[k] == name);
                let i = choose|i: int|
                    0 <= i < init.len() && text::trimmed(#[trigger] init[i]) == name;
                assert(parts[i] == init[i]);
            } else {
                assert(text::trimmed(parts[parts.len() - 1]) == name);
            }
        }
        if name.len() > 0 && exists|i: int|
            0 <= i < parts.len() && text::trimmed(#[trigger] parts[i]) == name {
            let i = choose|i: int|
                0 <= i < parts.len() && text::trimmed(#[trigger] parts[i]) == name;
            if i < init.len() {
                assert(init[i] == parts[i]);
                let k = choose|k: int| 0 <= k < rest.len() && rest[k] == name;
                assert(all[k] == name);
            } else {
                assert(all[rest.len() as int] == name);
            }
        }
    }
}

} // verus!
