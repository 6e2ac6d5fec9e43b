//! JSON as text: the one place where `serde_json` reads and writes it.

use vstd::prelude::*;

use crate::json::{
    entries, law_objects_hold_nothing_else, law_objects_hold_their_pairs, lemma_array_shape,
    lemma_lookup_found, lemma_object_shape, lookup, put, put_all, rising, Fraction, Json, JsonView,
    Numeral,
};
use crate::text;

verus! {

/// The value type of `serde_json`.
#[verifier::external_type_specification]
#[verifier::external_body]
pub struct ExValue(serde_json::Value);

/// What a `serde_json::Value` holds.
pub uninterp spec fn contents(v: serde_json::Value) -> JsonView;

/// What `serde_json::from_str` makes of a text: a value, or the message of its error.
pub uninterp spec fn json_parsed(text: Seq<char>) -> Result<JsonView, Seq<char>>;

/// The text that `serde_json::Value` displays as.
pub uninterp spec fn json_compact(v: JsonView) -> Seq<char>;

/// The text that `serde_json::to_string_pretty` writes.
pub uninterp spec fn json_pretty(v: JsonView) -> Seq<char>;

/// One level of a value, as it is read.
pub enum Level<'a> {
    Null,
    Bool(bool),
    Number(Numeral),
    Text(String),
    Array(Vec<&'a serde_json::Value>),
    Object(Vec<(&'a String, &'a serde_json::Value)>),
}

impl<'a> Level<'a> {
    pub open spec fn shape(self) -> JsonView {
        match self {
            Level::Null => JsonView::Null,
            Level::Bool(b) => JsonView::Bool(b),
            Level::Number(n) => JsonView::Number(n),
            Level::Text(s) => JsonView::Text(s@),
            Level::Array(v) => JsonView::Array(Seq::new(v@.len(), |i: int| contents(*v@[i]))),
            Level::Object(v) => JsonView::Object(
                Seq::new(v@.len(), |i: int| (v@[i].0@, contents(*v@[i].1))),
            ),
        }
    }
}

/// The entries of an object that is being built.
pub open spec fn part_entries(v: Seq<(String, serde_json::Value)>) -> Seq<(Seq<char>, JsonView)> {
    Seq::new(v.len(), |i: int| (v[i].0@, contents(v[i].1)))
}

/// One level of a value, as it is built.
pub enum Part {
    Null,
    Bool(bool),
    Number(Numeral),
    Text(String),
    Array(Vec<serde_json::Value>),
    Object(Vec<(String, serde_json::Value)>),
}

impl Part {
    pub open spec fn shape(self) -> JsonView {
        match self {
            Part::Null => JsonView::Null,
            Part::Bool(b) => JsonView::Bool(b),
            Part::Number(n) => JsonView::Number(n),
            Part::Text(s) => JsonView::Text(s@),
            Part::Array(v) => JsonView::Array(Seq::new(v@.len(), |i: int| contents(v@[i]))),
            Part::Object(v) => JsonView::Object(put_all(part_entries(v@))),
        }
    }
}

/// `serde_json::from_str` into a `serde_json::Value`. What comes out is a function
/// of the text: the value, or the text of the error. The objects of the value are
/// `serde_json::Map`s, which keep their keys in order, each once. More than 127 levels of
/// arrays and objects are an error.
#[verifier::external_body]
fn parse_value(text: &str) -> (r: Result<serde_json::Value, String>)
    ensures
        match r {
            Ok(v) => json_parsed(text@) == Ok::<JsonView, Seq<char>>(contents(v)) && orderly(
                contents(v),
            ) && shallow(contents(v), 127),
            Err(e) => json_parsed(text@) == Err::<JsonView, Seq<char>>(e@),
        },
{
    serde_json::from_str::<serde_json::Value>(text).map_err(|e| e.to_string())
}

/// The variants of `serde_json::Value`, one level deep: which one it is, and what it
/// holds. A number is told apart by `as_u64` and `as_i64`; an object hands out its
/// entries in its own order.
#[verifier::external_body]
fn level(v: &serde_json::Value) -> (r: Level<'_>)
    ensures
        r.shape() == contents(*v),
{
    match v {
        serde_json::Value::Null => Level::Null,
        serde_json::Value::Bool(b) => Level::Bool(*b),
        serde_json::Value::Number(n) => Level::Number(match (n.as_u64(), n.as_i64()) {
            (Some(u), _) => Numeral::Unsigned(u),
            (None, Some(i)) => Numeral::Negative(i),
            (None, None) => Numeral::Fraction(Fraction { number: n.clone() }),
        }),
        serde_json::Value::String(s) => Level::Text(s.clone()),
        serde_json::Value::Array(a) => Level::Array(a.iter().collect()),
        serde_json::Value::Object(m) => Level::Object(m.iter().collect()),
    }
}

/// The variants of `serde_json::Value`, built from one level. An object is a
/// `serde_json::Map`, which orders its keys and keeps the last of two equal ones.
#[verifier::external_body]
fn build(p: Part) -> (r: serde_json::Value)
    requires
        p matches Part::Number(Numeral::Negative(n)) ==> n < 0,
    ensures
        contents(r) == p.shape(),
{
    match p {
        Part::Null => serde_json::Value::Null,
        Part::Bool(b) => serde_json::Value::Bool(b),
        Part::Number(Numeral::Unsigned(u)) => serde_json::Value::from(u),
        Part::Number(Numeral::Negative(i)) => serde_json::Value::from(i),
        Part::Number(Numeral::Fraction(f)) => serde_json::Value::Number(f.number),
        Part::Text(s) => serde_json::Value::String(s),
        Part::Array(v) => serde_json::Value::Array(v),
        Part::Object(v) => serde_json::Value::Object(v.into_iter().collect()),
    }
}

/// `Display` of `serde_json::Value`: the compact text. It begins and ends with a bracket, a
/// quote, a digit, a sign or a letter, and a line break inside a text is escaped.
/// `serde_json::from_str` reads it as the value it came from, if that is nested no deeper
/// than it reads: the same but for the fractions, which are written with a point or an
/// exponent and so are read as fractions, but may lose their last digit.
#[verifier::external_body]
fn display(v: &serde_json::Value) -> (r: String)
    ensures
        r@ == json_compact(contents(*v)),
        one_line(r@),
        shallow(contents(*v), 127) ==> reads_like(r@, contents(*v)),
{
    v.to_string()
}

/// `serde_json::to_string_pretty`: the indented text. Writing a `serde_json::Value`, whose
/// keys are all texts, into memory does not fail. `serde_json::from_str` passes over the
/// blanks between its parts, and reads it as the value it came from, if that is nested no
/// deeper than it reads: the same but for the fractions, which are written with a point or an
/// exponent and so are read as fractions, but may lose their last digit.
#[verifier::external_body]
fn display_pretty(v: &serde_json::Value) -> (r: Result<String, String>)
    ensures
        r is Ok,
        r->Ok_0@ == json_pretty(contents(*v)),
        shallow(contents(*v), 127) ==> reads_like(r->Ok_0@, contents(*v)),
{
    serde_json::to_string_pretty(v).map_err(|e| e.to_string())
}

/// A value taken over into plain data.
fn read(v: &serde_json::Value) -> (r: Json)
    ensures
        r.shape() == contents(*v),
    decreases contents(*v),
{
    match level(v) {
        Level::Null => Json::Null,
        Level::Bool(b) => Json::Bool(b),
        Level::Number(n) => Json::Number(n),
        Level::Text(s) => Json::Text(s),
        Level::Array(items) => {
            let ghost all = contents(*v)->Array_0;
            let mut out: Vec<Json> = Vec::new();
            let mut i: usize = 0;
            while i < items.len()
                invariant
                    contents(*v) == JsonView::Array(all),
                    all == Seq::new(items@.len(), |i: int| contents(*items@[i])),
                    i <= items.len(),
                    out.len() == i,
                    forall|j: int| 0 <= j < i ==> (#[trigger] out@[j]).shape() == all[j],
                decreases items.len() - i,
            {
                assert(decreases_to!(contents(*v) => contents(*v)->Array_0));
                assert(decreases_to!(all => all[i as int]));
                out.push(read(items[i]));
                i += 1;
            }
            proof {
                lemma_array_shape(out);
                assert(out.deep_view() =~= all);
            }
            Json::Array(out)
        },
        Level::Object(items) => {
            let ghost all = contents(*v)->Object_0;
            let mut out: Vec<(String, Json)> = Vec::new();
            let mut i: usize = 0;
            while i < items.len()
                invariant
                    contents(*v) == JsonView::Object(all),
                    all == Seq::new(
                        items@.len(),
                        |i: int| (items@[i].0@, contents(*items@[i].1)),
                    ),
                    i <= items.len(),
                    out.len() == i,
                    forall|j: int|
                        0 <= j < i ==> ((#[trigger] out@[j]).0@, out@[j].1.shape()) == all[j],
                decreases items.len() - i,
            {
                assert(decreases_to!(contents(*v) => contents(*v)->Object_0));
                assert(decreases_to!(all => all[i as int]));
                assert(decreases_to!(all[i as int] => all[i as int].1));
                out.push((items[i].0.clone(), read(items[i].1)));
                i += 1;
            }
            proof {
                lemma_object_shape(out);
                assert(entries(out@) =~= all);
            }
            Json::Object(out)
        },
    }
}

/// A value as `serde_json` holds it: the entries of every object ordered by key, and
/// every integer that is not negative unsigned.
pub open spec fn ordered(v: JsonView) -> JsonView
    decreases v,
{
    match v {
        JsonView::Number(Numeral::Negative(n)) => if n < 0 {
            v
        } else {
            JsonView::Number(Numeral::Unsigned(n as u64))
        },
        JsonView::Array(items) => JsonView::Array(ordered_items(items)),
        JsonView::Object(items) => JsonView::Object(put_all(ordered_entries(items))),
        other => other,
    }
}

pub open spec fn ordered_items(items: Seq<JsonView>) -> Seq<JsonView>
    decreases items,
{
    if items.len() == 0 {
        Seq::empty()
    } else {
        ordered_items(items.subrange(0, items.len() - 1)).push(ordered(items[items.len() - 1]))
    }
}

pub open spec fn ordered_entries(items: Seq<(Seq<char>, JsonView)>) -> Seq<(Seq<char>, JsonView)>
    decreases items,
{
    if items.len() == 0 {
        Seq::empty()
    } else {
        ordered_entries(items.subrange(0, items.len() - 1)).push(
            (items[items.len() - 1].0, ordered(items[items.len() - 1].1)),
        )
    }
}

/// Do the keys of every object in a value rise?
pub open spec fn orderly(v: JsonView) -> bool
    decreases v,
{
    match v {
        JsonView::Array(items) => forall|i: int|
            0 <= i < items.len() ==> orderly(#[trigger] items[i]),
        JsonView::Object(e) => rising(e) && forall|i: int|
            0 <= i < e.len() ==> orderly((#[trigger] e[i]).1),
        _ => true,
    }
}

/// Are all numbers of a value integers?
pub open spec fn integral(v: JsonView) -> bool
    decreases v,
{
    match v {
        JsonView::Number(Numeral::Fraction(_)) => false,
        JsonView::Array(items) => forall|i: int|
            0 <= i < items.len() ==> integral(#[trigger] items[i]),
        JsonView::Object(e) => forall|i: int|
            0 <= i < e.len() ==> integral((#[trigger] e[i]).1),
        _ => true,
    }
}

/// Are the arrays and objects of a value nested no deeper than `depth`?
pub open spec fn shallow(v: JsonView, depth: nat) -> bool
    decreases v,
{
    match v {
        JsonView::Array(items) => depth > 0 && forall|i: int|
            0 <= i < items.len() ==> shallow(#[trigger] items[i], (depth - 1) as nat),
        JsonView::Object(e) => depth > 0 && forall|i: int|
            0 <= i < e.len() ==> shallow((#[trigger] e[i]).1, (depth - 1) as nat),
        _ => true,
    }
}

/// Is a value read from its text as it was written? `serde_json` reads no more than 127
/// levels of arrays and objects, and a number with a fraction may lose its last digit.
pub open spec fn reads_back(v: JsonView) -> bool {
    integral(v) && shallow(v, 127)
}

/// Are two values the same but for the fractions they hold at the same places?
pub open spec fn like(a: JsonView, b: JsonView) -> bool
    decreases a,
{
    match a {
        JsonView::Number(Numeral::Fraction(_)) => b matches JsonView::Number(Numeral::Fraction(_)),
        JsonView::Array(items) => b matches JsonView::Array(others) && items.len() == others.len()
            && forall|i: int|
            0 <= i < items.len() ==> like(#[trigger] items[i], others[i]),
        JsonView::Object(e) => b matches JsonView::Object(f) && e.len() == f.len() && forall|i: int|
            0 <= i < e.len() ==> (#[trigger] e[i]).0 == f[i].0 && like(e[i].1, f[i].1),
        _ => a == b,
    }
}

/// Are two lists of values the same but for the fractions in them?
pub open spec fn alike(a: Seq<JsonView>, b: Seq<JsonView>) -> bool {
    a.len() == b.len() && forall|i: int| 0 <= i < a.len() ==> like(#[trigger] a[i], b[i])
}

/// Is a text read as this value, but for its fractions?
pub open spec fn reads_like(text: Seq<char>, v: JsonView) -> bool {
    json_parsed(text) matches Ok(w) && like(v, w)
}

/// Is a text one line, with no blanks around it?
pub open spec fn one_line(s: Seq<char>) -> bool {
    &&& s.len() > 0
    &&& !s.contains('\n')
    &&& !text::is_space(s[0])
    &&& !text::is_space(s.last())
}

proof fn lemma_ordered_items(items: Seq<JsonView>, out: Seq<JsonView>)
    requires
        items.len() == out.len(),
        forall|i: int| 0 <= i < items.len() ==> #[trigger] out[i] == ordered(items[i]),
    ensures
        ordered_items(items) == out,
    decreases items.len(),
{
    if items.len() > 0 {
        lemma_ordered_items(items.subrange(0, items.len() - 1), out.drop_last());
    }
    assert(ordered_items(items) =~= out);
}

proof fn lemma_ordered_entries(
    items: Seq<(Seq<char>, JsonView)>,
    out: Seq<(Seq<char>, JsonView)>,
)
    requires
        items.len() == out.len(),
        forall|i: int|
            0 <= i < items.len() ==> #[trigger] out[i] == (items[i].0, ordered(items[i].1)),
    ensures
        ordered_entries(items) == out,
    decreases items.len(),
{
    if items.len() > 0 {
        lemma_ordered_entries(items.subrange(0, items.len() - 1), out.drop_last());
    }
    assert(ordered_entries(items) =~= out);
}

/// Every element of an array is ordered.
pub proof fn lemma_ordered_items_at(items: Seq<JsonView>)
    ensures
        ordered_items(items).len() == items.len(),
        forall|i: int|
            0 <= i < items.len() ==> #[trigger] ordered_items(items)[i] == ordered(items[i]),
    decreases items.len(),
{
    if items.len() > 0 {
        let init = items.subrange(0, items.len() - 1);
        lemma_ordered_items_at(init);
        assert forall|i: int| 0 <= i < items.len() implies #[trigger] ordered_items(items)[i]
            == ordered(items[i]) by {
            if i < init.len() {
                assert(ordered_items(items)[i] == ordered_items(init)[i]);
            }
        }
    }
}

proof fn lemma_ordered_entries_at(e: Seq<(Seq<char>, JsonView)>)
    ensures
        ordered_entries(e).len() == e.len(),
        forall|i: int|
            0 <= i < e.len() ==> #[trigger] ordered_entries(e)[i] == (e[i].0, ordered(e[i].1)),
    decreases e.len(),
{
    if e.len() > 0 {
        let init = e.subrange(0, e.len() - 1);
        lemma_ordered_entries_at(init);
        assert forall|i: int| 0 <= i < e.len() implies #[trigger] ordered_entries(e)[i] == (
            e[i].0,
            ordered(e[i].1),
        ) by {
            if i < init.len() {
                assert(ordered_entries(e)[i] == ordered_entries(init)[i]);
            }
        }
    }
}

/// To order a value moves nothing to another key.
pub proof fn law_ordering_keeps_what_is_under_a_key(
    e: Seq<(Seq<char>, JsonView)>,
    key: Seq<char>,
)
    requires
        rising(e),
    ensures
        ordered(JsonView::Object(e)).member(key) == (match lookup(e, key) {
            Some(v) => Some(ordered(v)),
            None => None,
        }),
{
    let q = ordered_entries(e);
    lemma_ordered_entries_at(e);
    let i = lemma_lookup_found(e, key);
    match lookup(e, key) {
        Some(v) => {
            assert(q[i] == (key, ordered(v)));
            assert forall|j: int| i < j < q.len() implies (#[trigger] q[j]).0 != q[i].0 by {
                assert(q[j].0 == e[j].0 && q[i].0 == e[i].0);
                text::lemma_precedes_total(e[i].0, e[j].0);
            }
            law_objects_hold_their_pairs(q, i);
        },
        None => {
            assert forall|j: int| 0 <= j < q.len() implies (#[trigger] q[j]).0 != key by {
                assert(q[j].0 == e[j].0);
            }
            law_objects_hold_nothing_else(q, key);
        },
    }
}

/// Values without fractions that are the same but for their fractions are the same.
pub proof fn law_integral_values_that_are_alike_are_equal(a: JsonView, b: JsonView)
    requires
        like(a, b),
        integral(a),
    ensures
        a == b,
    decreases a,
{
    match a {
        JsonView::Array(items) => {
            let others = b->Array_0;
            assert forall|i: int| 0 <= i < items.len() implies items[i] == others[i] by {
                assert(decreases_to!(a => a->Array_0));
                assert(decreases_to!(a->Array_0 => a->Array_0[i]));
                assert(like(items[i], others[i]));
                law_integral_values_that_are_alike_are_equal(items[i], others[i]);
            }
            assert(items =~= others);
        },
        JsonView::Object(e) => {
            let f = b->Object_0;
            assert forall|i: int| 0 <= i < e.len() implies e[i] == f[i] by {
                assert(decreases_to!(a => a->Object_0));
                assert(decreases_to!(a->Object_0 => a->Object_0[i]));
                assert(decreases_to!(a->Object_0[i] => a->Object_0[i].1));
                assert(e[i].0 == f[i].0 && like(e[i].1, f[i].1));
                law_integral_values_that_are_alike_are_equal(e[i].1, f[i].1);
            }
            assert(e =~= f);
        },
        _ => {},
    }
}

/// What lies under a key of two values that are the same but for their fractions is the same
/// but for its fractions.
pub proof fn lemma_like_member(a: JsonView, b: JsonView, key: Seq<char>)
    requires
        like(a, b),
    ensures
        match a.member(key) {
            Some(v) => b.member(key) matches Some(w) && like(v, w),
            None => b.member(key) is None,
        },
{
    if let JsonView::Object(e) = a {
        lemma_like_lookup(e, b->Object_0, key);
    }
}

/// What lies under a key of two objects that are the same but for their fractions is the
/// same but for its fractions.
pub proof fn lemma_like_lookup(
    e: Seq<(Seq<char>, JsonView)>,
    f: Seq<(Seq<char>, JsonView)>,
    key: Seq<char>,
)
    requires
        like(JsonView::Object(e), JsonView::Object(f)),
    ensures
        match lookup(e, key) {
            Some(v) => lookup(f, key) matches Some(w) && like(v, w),
            None => lookup(f, key) is None,
        },
    decreases e.len(),
{
    if e.len() > 0 {
        assert(e[0].0 == f[0].0 && like(e[0].1, f[0].1));
        let d = e.drop_first();
        let g = f.drop_first();
        assert forall|i: int| 0 <= i < d.len() implies (#[trigger] d[i]).0 == g[i].0 && like(
            d[i].1,
            g[i].1,
        ) by {
            assert(d[i] == e[i + 1] && g[i] == f[i + 1]);
        }
        lemma_like_lookup(d, g, key);
    }
}

/// An object is shallow if each of its values is, one level less.
pub proof fn lemma_shallow_entries(v: JsonView, e: Seq<(Seq<char>, JsonView)>, depth: nat)
    requires
        v == JsonView::Object(e),
    ensures
        shallow(v, depth) == (depth > 0 && forall|i: int|
            0 <= i < e.len() ==> shallow((#[trigger] e[i]).1, (depth - 1) as nat)),
{
    assert(v->Object_0 == e);
}

/// What is nested no deeper than one depth is nested no deeper than a greater one.
pub proof fn lemma_shallow_grows(v: JsonView, depth: nat, more: nat)
    requires
        shallow(v, depth),
        depth <= more,
    ensures
        shallow(v, more),
    decreases v,
{
    match v {
        JsonView::Array(items) => {
            assert forall|i: int| 0 <= i < items.len() implies shallow(
                #[trigger] items[i],
                (more - 1) as nat,
            ) by {
                assert(decreases_to!(v => v->Array_0));
                assert(decreases_to!(v->Array_0 => v->Array_0[i]));
                lemma_shallow_grows(items[i], (depth - 1) as nat, (more - 1) as nat);
            }
        },
        JsonView::Object(e) => {
            assert forall|i: int| 0 <= i < e.len() implies shallow(
                (#[trigger] e[i]).1,
                (more - 1) as nat,
            ) by {
                assert(decreases_to!(v => v->Object_0));
                assert(decreases_to!(v->Object_0 => v->Object_0[i]));
                assert(decreases_to!(v->Object_0[i] => v->Object_0[i].1));
                lemma_shallow_grows(e[i].1, (depth - 1) as nat, (more - 1) as nat);
            }
        },
        _ => {},
    }
}

/// An object stays shallow when a shallow value is put into it.
pub proof fn lemma_put_shallow(
    e: Seq<(Seq<char>, JsonView)>,
    key: Seq<char>,
    value: JsonView,
    depth: nat,
)
    requires
        shallow(JsonView::Object(e), depth),
        shallow(value, (depth - 1) as nat),
    ensures
        shallow(JsonView::Object(put(e, key, value)), depth),
    decreases e.len(),
{
    let after = put(e, key, value);
    let below = (depth - 1) as nat;
    lemma_shallow_entries(JsonView::Object(e), e, depth);
    lemma_shallow_entries(JsonView::Object(after), after, depth);
    if e.len() > 0 && e[0].0 != key && !text::precedes(key, e[0].0) {
        let rest = e.drop_first();
        assert forall|i: int| 0 <= i < rest.len() implies shallow((#[trigger] rest[i]).1, below) by {
            assert(rest[i] == e[i + 1]);
        }
        lemma_shallow_entries(JsonView::Object(rest), rest, depth);
        lemma_put_shallow(rest, key, value, depth);
        let tail = put(rest, key, value);
        lemma_shallow_entries(JsonView::Object(tail), tail, depth);
        assert forall|i: int| 0 <= i < after.len() implies shallow(
            (#[trigger] after[i]).1,
            below,
        ) by {
            if i == 0 {
                assert(after[i] == e[0]);
            } else {
                assert(after[i] == tail[i - 1]);
            }
        }
    } else {
        assert forall|i: int| 0 <= i < after.len() implies shallow(
            (#[trigger] after[i]).1,
            below,
        ) by {
            if i > 0 {
                if e.len() > 0 && e[0].0 == key {
                    assert(after[i] == e.drop_first()[i - 1]);
                    assert(after[i] == e[i]);
                } else {
                    assert(after[i] == e[i - 1]);
                }
            }
        }
    }
}

proof fn lemma_put_all_shallow(pairs: Seq<(Seq<char>, JsonView)>, depth: nat)
    requires
        shallow(JsonView::Object(pairs), depth),
    ensures
        shallow(JsonView::Object(put_all(pairs)), depth),
    decreases pairs.len(),
{
    lemma_shallow_entries(JsonView::Object(pairs), pairs, depth);
    if pairs.len() > 0 {
        let init = pairs.drop_last();
        lemma_shallow_entries(JsonView::Object(init), init, depth);
        assert forall|i: int| 0 <= i < init.len() implies shallow(
            (#[trigger] init[i]).1,
            (depth - 1) as nat,
        ) by {
            assert(init[i] == pairs[i]);
        }
        lemma_put_all_shallow(init, depth);
        assert(shallow(pairs[pairs.len() - 1].1, (depth - 1) as nat));
        lemma_put_shallow(put_all(init), pairs.last().0, pairs.last().1, depth);
    }
}

/// To order a value nests it no deeper.
pub proof fn lemma_ordered_shallow(v: JsonView, depth: nat)
    requires
        shallow(v, depth),
    ensures
        shallow(ordered(v), depth),
    decreases v,
{
    match v {
        JsonView::Array(items) => {
            lemma_ordered_items_at(items);
            let q = ordered_items(items);
            assert forall|i: int| 0 <= i < q.len() implies shallow(
                #[trigger] q[i],
                (depth - 1) as nat,
            ) by {
                assert(decreases_to!(v => v->Array_0));
                assert(decreases_to!(v->Array_0 => v->Array_0[i]));
                assert(shallow(items[i], (depth - 1) as nat));
                lemma_ordered_shallow(items[i], (depth - 1) as nat);
            }
        },
        JsonView::Object(e) => {
            lemma_ordered_entries_at(e);
            let q = ordered_entries(e);
            assert forall|i: int| 0 <= i < q.len() implies shallow(
                (#[trigger] q[i]).1,
                (depth - 1) as nat,
            ) by {
                assert(decreases_to!(v => v->Object_0));
                assert(decreases_to!(v->Object_0 => v->Object_0[i]));
                assert(decreases_to!(v->Object_0[i] => v->Object_0[i].1));
                assert(shallow(e[i].1, (depth - 1) as nat));
                lemma_ordered_shallow(e[i].1, (depth - 1) as nat);
            }
            lemma_put_all_shallow(q, depth);
        },
        _ => {},
    }
}

/// Plain data handed over to `serde_json`.
fn write(j: &Json) -> (r: serde_json::Value)
    ensures
        contents(r) == ordered(j.shape()),
    decreases j,
{
    match j {
        Json::Null => build(Part::Null),
        Json::Bool(b) => build(Part::Bool(*b)),
        Json::Number(Numeral::Unsigned(n)) => build(Part::Number(Numeral::Unsigned(*n))),
        Json::Number(Numeral::Negative(n)) => if *n < 0 {
            build(Part::Number(Numeral::Negative(*n)))
        } else {
            build(Part::Number(Numeral::Unsigned(*n as u64)))
        },
        Json::Number(Numeral::Fraction(f)) => build(
            Part::Number(Numeral::Fraction(Fraction { number: f.number.clone() })),
        ),
        Json::Text(s) => build(Part::Text(s.clone())),
        Json::Array(v) => {
            let mut out: Vec<serde_json::Value> = Vec::new();
            let mut i: usize = 0;
            while i < v.len()
                invariant
                    *j == Json::Array(*v),
                    i <= v.len(),
                    out.len() == i,
                    forall|k: int|
                        0 <= k < i ==> contents(#[trigger] out@[k]) == ordered(v@[k].shape()),
                decreases v.len() - i,
            {
                assert(decreases_to!(*j => j->Array_0));
                assert(decreases_to!(j->Array_0 => j->Array_0[i as int]));
                out.push(write(&v[i]));
                i += 1;
            }
            proof {
                lemma_array_shape(*v);
                let done = Part::Array(out).shape()->Array_0;
                lemma_ordered_items(v.deep_view(), done);
            }
            build(Part::Array(out))
        },
        Json::Object(v) => {
            let mut out: Vec<(String, serde_json::Value)> = Vec::new();
            let mut i: usize = 0;
            while i < v.len()
                invariant
                    *j == Json::Object(*v),
                    i <= v.len(),
                    out.len() == i,
                    forall|k: int|
                        0 <= k < i ==> contents((#[trigger] out@[k]).1) == ordered(v@[k].1.shape())
                            && out@[k].0@ == v@[k].0@,
                decreases v.len() - i,
            {
                assert(decreases_to!(*j => j->Object_0));
                assert(decreases_to!(j->Object_0 => j->Object_0[i as int]));
                assert(decreases_to!(j->Object_0[i as int] => j->Object_0[i as int].1));
                out.push((v[i].0.clone(), write(&v[i].1)));
                i += 1;
            }
            proof {
                lemma_object_shape(*v);
                lemma_ordered_entries(entries(v@), part_entries(out@));
            }
            build(Part::Object(out))
        },
    }
}

impl Json {
    /// Reads a JSON text. The keys of its objects come in order, each once, and it is nested
    /// no deeper than 127 levels.
    pub fn parse(text: &str) -> (r: Result<Json, String>)
        ensures
            match r {
                Ok(j) => json_parsed(text@) == Ok::<JsonView, Seq<char>>(j.shape()) && orderly(
                    j.shape(),
                ) && shallow(j.shape(), 127),
                Err(e) => json_parsed(text@) == Err::<JsonView, Seq<char>>(e@),
            },
    {
        match parse_value(text) {
            Ok(v) => Ok(read(&v)),
            Err(e) => Err(e),
        }
    }

    /// The value as compact JSON, which is one line. Read again, it is the same value, the
    /// entries of its objects in the order of their keys, if [`reads_back`] holds of it; of
    /// any other that is nested no deeper than 127 levels, it is the same but for its
    /// fractions.
    pub fn to_text(&self) -> (r: String)
        ensures
            r@ == json_compact(ordered(self.shape())),
            one_line(r@),
            reads_back(ordered(self.shape())) ==> json_parsed(r@) == Ok::<
                JsonView,
                Seq<char>,
            >(ordered(self.shape())),
            shallow(ordered(self.shape()), 127) ==> reads_like(r@, ordered(self.shape())),
    {
        let r = display(&write(self));
        proof {
            lemma_reads_back(r@, ordered(self.shape()));
        }
        r
    }

    /// The value as indented JSON. Read again, it is the same value, the entries of its
    /// objects in the order of their keys, if [`reads_back`] holds of it; of any other that is
    /// nested no deeper than 127 levels, it is the same but for its fractions.
    pub fn to_pretty_text(&self) -> (r: Result<String, String>)
        ensures
            r matches Ok(s) && s@ == json_pretty(ordered(self.shape())),
            r matches Ok(s) && (reads_back(ordered(self.shape())) ==> json_parsed(s@) == Ok::<
                JsonView,
                Seq<char>,
            >(ordered(self.shape()))),
            r matches Ok(s) && (shallow(ordered(self.shape()), 127) ==> reads_like(
                s@,
                ordered(self.shape()),
            )),
    {
        let r = display_pretty(&write(self));
        proof {
            lemma_reads_back(r->Ok_0@, ordered(self.shape()));
        }
        r
    }
}

proof fn lemma_reads_back(text: Seq<char>, v: JsonView)
    ensures
        reads_like(text, v) && integral(v) ==> json_parsed(text) == Ok::<JsonView, Seq<char>>(v),
{
    if reads_like(text, v) && integral(v) {
        law_integral_values_that_are_alike_are_equal(v, json_parsed(text)->Ok_0);
    }
}

} // verus!
