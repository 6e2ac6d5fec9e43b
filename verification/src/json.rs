//! JSON values as plain data, read and written by `serde_json`.

use vstd::prelude::*;

use crate::text;

verus! {

/// The number type of `serde_json`, carried through unread.
#[verifier::external_type_specification]
#[verifier::external_body]
pub struct ExNumber(serde_json::Number);

/// `Clone` of `serde_json::Number`: the copy is the number itself.
pub assume_specification[ <serde_json::Number as Clone>::clone ](
    n: &serde_json::Number,
) -> (r: serde_json::Number)
    ensures
        r == *n,
;

/// A JSON number that is no integer, as it was read.
#[derive(Debug, PartialEq, Eq)]
pub struct Fraction {
    pub(crate) number: serde_json::Number,
}

/// A JSON number: an integer, or one that is not and is only passed on.
#[derive(Debug, PartialEq, Eq)]
pub enum Numeral {
    Unsigned(u64),
    /// An integer below zero.
    Negative(i64),
    Fraction(Fraction),
}

/// A JSON value. An object is the list of its entries.
#[derive(Debug, PartialEq, Eq)]
pub enum Json {
    Null,
    Bool(bool),
    Number(Numeral),
    Text(String),
    Array(Vec<Json>),
    Object(Vec<(String, Json)>),
}

/// The model of a [`Json`].
pub enum JsonView {
    Null,
    Bool(bool),
    Number(Numeral),
    Text(Seq<char>),
    Array(Seq<JsonView>),
    Object(Seq<(Seq<char>, JsonView)>),
}

impl Json {
    /// The value as plain mathematical data.
    pub open spec fn shape(self) -> JsonView
        decreases self,
    {
        match self {
            Json::Null => JsonView::Null,
            Json::Bool(b) => JsonView::Bool(b),
            Json::Number(n) => JsonView::Number(n),
            Json::Text(s) => JsonView::Text(s@),
            Json::Array(v) => JsonView::Array(
                Seq::new(
                    v@.len(),
                    |i: int|
                        if 0 <= i < v@.len() {
                            v@[i].shape()
                        } else {
                            JsonView::Null
                        },
                ),
            ),
            Json::Object(v) => JsonView::Object(
                Seq::new(
                    v@.len(),
                    |i: int|
                        if 0 <= i < v@.len() {
                            (v@[i].0@, v@[i].1.shape())
                        } else {
                            (Seq::empty(), JsonView::Null)
                        },
                ),
            ),
        }
    }
}

impl DeepView for Json {
    type V = JsonView;

    open spec fn deep_view(&self) -> JsonView {
        self.shape()
    }
}

/// The entries of an object, in their order.
pub open spec fn entries(v: Seq<(String, Json)>) -> Seq<(Seq<char>, JsonView)> {
    Seq::new(v.len(), |i: int| (v[i].0@, v[i].1.shape()))
}

pub proof fn lemma_object_shape(v: Vec<(String, Json)>)
    ensures
        Json::Object(v).shape() == JsonView::Object(entries(v@)),
{
    assert(Json::Object(v).shape()->Object_0 =~= entries(v@));
}

pub proof fn lemma_array_shape(v: Vec<Json>)
    ensures
        Json::Array(v).shape() == JsonView::Array(v.deep_view()),
{
    assert(Json::Array(v).shape()->Array_0 =~= v.deep_view());
}

// ---- Objects ------------------------------------------------------------------

/// The value that an object holds under `key`.
pub open spec fn lookup(e: Seq<(Seq<char>, JsonView)>, key: Seq<char>) -> Option<JsonView>
    decreases e.len(),
{
    if e.len() == 0 {
        None
    } else if e[0].0 == key {
        Some(e[0].1)
    } else {
        lookup(e.drop_first(), key)
    }
}

/// An object with `value` under `key`: a key that is there keeps its place, another
/// goes in front of the first key that it precedes.
pub open spec fn put(
    e: Seq<(Seq<char>, JsonView)>,
    key: Seq<char>,
    value: JsonView,
) -> Seq<(Seq<char>, JsonView)>
    decreases e.len(),
{
    if e.len() == 0 {
        seq![(key, value)]
    } else if e[0].0 == key {
        seq![(key, value)] + e.drop_first()
    } else if text::precedes(key, e[0].0) {
        seq![(key, value)] + e
    } else {
        seq![e[0]] + put(e.drop_first(), key, value)
    }
}

/// The object that holds `pairs`, a later pair replacing an earlier one of the same
/// key.
pub open spec fn put_all(pairs: Seq<(Seq<char>, JsonView)>) -> Seq<(Seq<char>, JsonView)>
    decreases pairs.len(),
{
    if pairs.len() == 0 {
        Seq::empty()
    } else {
        put(put_all(pairs.drop_last()), pairs.last().0, pairs.last().1)
    }
}

/// The JSON object that holds `pairs`.
pub open spec fn obj(pairs: Seq<(Seq<char>, JsonView)>) -> JsonView {
    JsonView::Object(put_all(pairs))
}

/// What was put under a key is found there, and nothing else changes.
pub proof fn law_put_then_lookup(
    e: Seq<(Seq<char>, JsonView)>,
    key: Seq<char>,
    value: JsonView,
    other: Seq<char>,
)
    ensures
        lookup(put(e, key, value), key) == Some(value),
        other != key ==> lookup(put(e, key, value), other) == lookup(e, other),
    decreases e.len(),
{
    let after = put(e, key, value);
    if e.len() == 0 {
        assert(after.drop_first() =~= e);
    } else if e[0].0 == key {
        assert(after.drop_first() =~= e.drop_first());
    } else if text::precedes(key, e[0].0) {
        assert(after.drop_first() =~= e);
    } else {
        law_put_then_lookup(e.drop_first(), key, value, other);
        assert(after.drop_first() =~= put(e.drop_first(), key, value));
    }
}

/// An object holds each pair it was made of, unless a later one has the same key.
pub proof fn law_objects_hold_their_pairs(pairs: Seq<(Seq<char>, JsonView)>, i: int)
    requires
        0 <= i < pairs.len(),
        forall|j: int| i < j < pairs.len() ==> (#[trigger] pairs[j]).0 != pairs[i].0,
    ensures
        lookup(put_all(pairs), pairs[i].0) == Some(pairs[i].1),
    decreases pairs.len(),
{
    let init = pairs.drop_last();
    law_put_then_lookup(put_all(init), pairs.last().0, pairs.last().1, pairs[i].0);
    if i < init.len() {
        assert(pairs[pairs.len() - 1].0 != pairs[i].0);
        assert forall|j: int| i < j < init.len() implies (#[trigger] init[j]).0 != init[i].0 by {
            assert(pairs[j].0 != pairs[i].0);
        }
        law_objects_hold_their_pairs(init, i);
    }
}

/// An object made of pairs with different keys holds each of them under its key.
pub proof fn law_distinct_pairs_are_members(pairs: Seq<(Seq<char>, JsonView)>)
    requires
        forall|i: int, j: int|
            0 <= i < j < pairs.len() ==> (#[trigger] pairs[i]).0 != (#[trigger] pairs[j]).0,
    ensures
        forall|i: int|
            0 <= i < pairs.len() ==> obj(pairs).member((#[trigger] pairs[i]).0) == Some(pairs[i].1),
{
    assert forall|i: int| 0 <= i < pairs.len() implies obj(pairs).member((#[trigger] pairs[i]).0)
        == Some(pairs[i].1) by {
        assert forall|j: int| i < j < pairs.len() implies (#[trigger] pairs[j]).0 != pairs[i].0 by {
            assert(pairs[i].0 != pairs[j].0);
        }
        law_objects_hold_their_pairs(pairs, i);
    }
}

/// Do the keys rise: each is behind those in front of it, and none is there twice?
pub open spec fn rising(e: Seq<(Seq<char>, JsonView)>) -> bool {
    forall|i: int, j: int|
        0 <= i < j < e.len() ==> text::precedes((#[trigger] e[i]).0, (#[trigger] e[j]).0)
}

/// To put something into an object keeps its keys rising.
pub proof fn lemma_put_rises(e: Seq<(Seq<char>, JsonView)>, key: Seq<char>, value: JsonView)
    requires
        rising(e),
    ensures
        rising(put(e, key, value)),
        forall|i: int|
            0 <= i < put(e, key, value).len() ==> ((#[trigger] put(e, key, value)[i]).0 == key
                || exists|j: int|
                0 <= j < e.len() && (#[trigger] e[j]).0 == put(e, key, value)[i].0),
    decreases e.len(),
{
    let after = put(e, key, value);
    if e.len() == 0 {
    } else if e[0].0 == key {
        assert forall|i: int, j: int| 0 <= i < j < after.len() implies text::precedes(
            (#[trigger] after[i]).0,
            (#[trigger] after[j]).0,
        ) by {
            assert(after[i].0 == e[i].0 && after[j].0 == e[j].0);
        }
        assert forall|i: int| 0 <= i < after.len() implies ((#[trigger] after[i]).0 == key
            || exists|j: int| 0 <= j < e.len() && (#[trigger] e[j]).0 == after[i].0) by {
            assert(e[i].0 == after[i].0);
        }
    } else if text::precedes(key, e[0].0) {
        assert forall|i: int, j: int| 0 <= i < j < after.len() implies text::precedes(
            (#[trigger] after[i]).0,
            (#[trigger] after[j]).0,
        ) by {
            assert(after[j] == e[j - 1]);
            if i > 0 {
                assert(after[i] == e[i - 1]);
            } else if j > 1 {
                text::lemma_precedes_trans(key, e[0].0, e[j - 1].0);
            }
        }
        assert forall|i: int| 0 <= i < after.len() implies ((#[trigger] after[i]).0 == key
            || exists|j: int| 0 <= j < e.len() && (#[trigger] e[j]).0 == after[i].0) by {
            if i > 0 {
                assert(e[i - 1].0 == after[i].0);
            }
        }
    } else {
        let rest = e.drop_first();
        assert forall|i: int, j: int| 0 <= i < j < rest.len() implies text::precedes(
            (#[trigger] rest[i]).0,
            (#[trigger] rest[j]).0,
        ) by {
            assert(rest[i] == e[i + 1] && rest[j] == e[j + 1]);
        }
        lemma_put_rises(rest, key, value);
        let tail = put(rest, key, value);
        text::lemma_precedes_total(key, e[0].0);
        text::lemma_precedes_total(e[0].0, key);
        assert forall|i: int, j: int| 0 <= i < j < after.len() implies text::precedes(
            (#[trigger] after[i]).0,
            (#[trigger] after[j]).0,
        ) by {
            assert(after[j] == tail[j - 1]);
            if i > 0 {
                assert(after[i] == tail[i - 1]);
            } else if tail[j - 1].0 != key {
                let k = choose|k: int|
                    0 <= k < rest.len() && (#[trigger] rest[k]).0 == tail[j - 1].0;
                assert(rest[k] == e[k + 1]);
            }
        }
        assert forall|i: int| 0 <= i < after.len() implies ((#[trigger] after[i]).0 == key
            || exists|j: int| 0 <= j < e.len() && (#[trigger] e[j]).0 == after[i].0) by {
            if i == 0 {
                assert(e[0].0 == after[0].0);
            } else {
                assert(after[i] == tail[i - 1]);
                if tail[i - 1].0 != key {
                    let k = choose|k: int|
                        0 <= k < rest.len() && (#[trigger] rest[k]).0 == tail[i - 1].0;
                    assert(rest[k] == e[k + 1]);
                }
            }
        }
    }
}

/// The keys of an object rise.
pub proof fn law_keys_rise(pairs: Seq<(Seq<char>, JsonView)>)
    ensures
        rising(put_all(pairs)),
    decreases pairs.len(),
{
    if pairs.len() > 0 {
        law_keys_rise(pairs.drop_last());
        lemma_put_rises(put_all(pairs.drop_last()), pairs.last().0, pairs.last().1);
    }
}

/// An object has no key that its pairs do not have.
pub proof fn law_objects_hold_nothing_else(pairs: Seq<(Seq<char>, JsonView)>, key: Seq<char>)
    requires
        forall|j: int| 0 <= j < pairs.len() ==> (#[trigger] pairs[j]).0 != key,
    ensures
        lookup(put_all(pairs), key) is None,
    decreases pairs.len(),
{
    if pairs.len() > 0 {
        let init = pairs.drop_last();
        assert forall|j: int| 0 <= j < init.len() implies (#[trigger] init[j]).0 != key by {
            assert(init[j] == pairs[j]);
        }
        law_objects_hold_nothing_else(init, key);
        assert(pairs[pairs.len() - 1].0 != key);
        law_put_then_lookup(put_all(init), pairs.last().0, pairs.last().1, key);
    }
}

/// Where a key is found.
pub proof fn lemma_lookup_found(e: Seq<(Seq<char>, JsonView)>, key: Seq<char>) -> (i: int)
    ensures
        match lookup(e, key) {
            Some(v) => 0 <= i < e.len() && e[i] == (key, v),
            None => forall|j: int| 0 <= j < e.len() ==> (#[trigger] e[j]).0 != key,
        },
    decreases e.len(),
{
    if e.len() == 0 {
        0
    } else if e[0].0 == key {
        0
    } else {
        let rest = e.drop_first();
        let k = lemma_lookup_found(rest, key);
        if lookup(e, key) is None {
            assert forall|j: int| 0 <= j < e.len() implies (#[trigger] e[j]).0 != key by {
                if j > 0 {
                    assert(rest[j - 1] == e[j]);
                }
            }
        }
        k + 1
    }
}

proof fn lemma_put_at(
    e: Seq<(Seq<char>, JsonView)>,
    key: Seq<char>,
    value: JsonView,
    n: int,
)
    requires
        0 <= n <= e.len(),
        forall|j: int|
            0 <= j < n ==> (#[trigger] e[j]).0 != key && !text::precedes(key, e[j].0),
        n < e.len() ==> e[n].0 == key || text::precedes(key, e[n].0),
    ensures
        put(e, key, value) == (if n < e.len() && e[n].0 == key {
            e.update(n, (key, value))
        } else {
            e.insert(n, (key, value))
        }),
    decreases n,
{
    if n > 0 {
        let rest = e.drop_first();
        assert forall|j: int| 0 <= j < n - 1 implies (#[trigger] rest[j]).0 != key
            && !text::precedes(key, rest[j].0) by {
            assert(rest[j] == e[j + 1]);
        }
        lemma_put_at(rest, key, value, n - 1);
        if n < e.len() && e[n].0 == key {
            assert(seq![e[0]] + rest.update(n - 1, (key, value)) =~= e.update(n, (key, value)));
        } else {
            assert(seq![e[0]] + rest.insert(n - 1, (key, value)) =~= e.insert(n, (key, value)));
        }
    } else if e.len() == 0 {
        assert(seq![(key, value)] =~= e.insert(0, (key, value)));
    } else if e[0].0 == key {
        assert(seq![(key, value)] + e.drop_first() =~= e.update(0, (key, value)));
    } else {
        assert(seq![(key, value)] + e =~= e.insert(0, (key, value)));
    }
}

/// Puts `value` under `key`.
pub fn insert(map: &mut Vec<(String, Json)>, key: String, value: Json)
    ensures
        entries(final(map)@) == put(entries(old(map)@), key@, value.shape()),
{
    let ghost before = entries(map@);
    let ghost k = key@;
    let ghost v = value.shape();
    let mut i: usize = 0;
    while i < map.len() && !text::same(map[i].0.as_str(), key.as_str()) && !text::less(
        key.as_str(),
        map[i].0.as_str(),
    )
        invariant
            i <= map.len(),
            key@ == k,
            entries(map@) == before,
            forall|j: int|
                0 <= j < i ==> (#[trigger] before[j]).0 != k && !text::precedes(k, before[j].0),
        decreases map.len() - i,
    {
        i += 1;
    }
    proof {
        lemma_put_at(before, k, v, i as int);
    }
    if i < map.len() && text::same(map[i].0.as_str(), key.as_str()) {
        map[i] = (key, value);
        assert(entries(map@) =~= before.update(i as int, (k, v)));
    } else {
        map.insert(i, (key, value));
        assert(entries(map@) =~= before.insert(i as int, (k, v)));
    }
}

/// The JSON object that holds `pairs`.
pub fn object(pairs: Vec<(String, Json)>) -> (r: Json)
    ensures
        r.shape() == obj(entries(pairs@)),
{
    let mut map: Vec<(String, Json)> = Vec::new();
    let mut rest: Vec<(String, Json)> = pairs;
    let ghost all = entries(pairs@);
    let ghost mut done: int = 0;
    assert(all.skip(0) =~= all);
    assert(entries(map@) =~= put_all(all.take(0)));
    while rest.len() > 0
        invariant
            0 <= done <= all.len(),
            rest.len() == all.len() - done,
            entries(rest@) == all.skip(done),
            entries(map@) == put_all(all.take(done)),
        decreases rest.len(),
    {
        let ghost prev = entries(rest@);
        let first = rest.remove(0);
        assert(entries(rest@) =~= prev.drop_first());
        assert((first.0@, first.1.shape()) == prev[0]);
        assert(all.take(done + 1).drop_last() =~= all.take(done));
        insert(&mut map, first.0, first.1);
        proof {
            done = done + 1;
            assert(prev.drop_first() =~= all.skip(done));
        }
    }
    assert(all.take(done) =~= all);
    proof {
        lemma_object_shape(map);
    }
    Json::Object(map)
}

proof fn lemma_lookup_at(e: Seq<(Seq<char>, JsonView)>, key: Seq<char>, n: int)
    requires
        0 <= n <= e.len(),
        forall|j: int| 0 <= j < n ==> (#[trigger] e[j]).0 != key,
        n < e.len() ==> e[n].0 == key,
    ensures
        lookup(e, key) == (if n < e.len() {
            Some(e[n].1)
        } else {
            None
        }),
    decreases n,
{
    if n > 0 {
        let rest = e.drop_first();
        assert forall|j: int| 0 <= j < n - 1 implies (#[trigger] rest[j]).0 != key by {
            assert(rest[j] == e[j + 1]);
        }
        lemma_lookup_at(rest, key, n - 1);
    }
}

/// Where an object holds `key`.
pub fn index_of(map: &Vec<(String, Json)>, key: &str) -> (r: Option<usize>)
    ensures
        match r {
            Some(i) => i < map.len() && lookup(entries(map@), key@) == Some(map@[i as int].1.shape())
                && map@[i as int].0@ == key@,
            None => lookup(entries(map@), key@) is None,
        },
{
    let ghost e = entries(map@);
    let mut i: usize = 0;
    while i < map.len()
        invariant
            i <= map.len(),
            e == entries(map@),
            forall|j: int| 0 <= j < i ==> (#[trigger] e[j]).0 != key@,
        decreases map.len() - i,
    {
        if text::same(map[i].0.as_str(), key) {
            proof {
                lemma_lookup_at(e, key@, i as int);
            }
            return Some(i);
        }
        i += 1;
    }
    proof {
        lemma_lookup_at(e, key@, i as int);
    }
    None
}

/// The view of an optional value.
pub open spec fn opt_shape(o: Option<&Json>) -> Option<JsonView> {
    match o {
        Some(j) => Some(j.shape()),
        None => None,
    }
}

impl JsonView {
    /// What stands under `key`, if this is an object that has the key.
    pub open spec fn member(self, key: Seq<char>) -> Option<JsonView> {
        match self {
            JsonView::Object(e) => lookup(e, key),
            _ => None,
        }
    }

    /// The text, if this is one.
    pub open spec fn text(self) -> Option<Seq<char>> {
        match self {
            JsonView::Text(s) => Some(s),
            _ => None,
        }
    }

    /// The truth value, if this is one.
    pub open spec fn truth(self) -> Option<bool> {
        match self {
            JsonView::Bool(b) => Some(b),
            _ => None,
        }
    }

    /// The number, if this is an integer that is not negative.
    pub open spec fn unsigned(self) -> Option<u64> {
        match self {
            JsonView::Number(Numeral::Unsigned(n)) => Some(n),
            _ => None,
        }
    }

    /// The elements, if this is an array.
    pub open spec fn elements(self) -> Option<Seq<JsonView>> {
        match self {
            JsonView::Array(v) => Some(v),
            _ => None,
        }
    }
}

impl Json {
    /// What stands under `key`, if this is an object that has the key.
    pub fn get(&self, key: &str) -> (r: Option<&Json>)
        ensures
            opt_shape(r) == self.shape().member(key@),
    {
        match self {
            Json::Object(map) => {
                proof {
                    lemma_object_shape(*map);
                }
                match index_of(map, key) {
                    Some(i) => Some(&map[i].1),
                    None => None,
                }
            },
            _ => None,
        }
    }

    pub fn as_str(&self) -> (r: Option<&str>)
        ensures
            text::opt_view(r) == self.shape().text(),
    {
        match self {
            Json::Text(s) => Some(s.as_str()),
            _ => None,
        }
    }

    pub fn as_bool(&self) -> (r: Option<bool>)
        ensures
            r == self.shape().truth(),
    {
        match self {
            Json::Bool(b) => Some(*b),
            _ => None,
        }
    }

    pub fn as_u64(&self) -> (r: Option<u64>)
        ensures
            r == self.shape().unsigned(),
    {
        match self {
            Json::Number(Numeral::Unsigned(n)) => Some(*n),
            _ => None,
        }
    }

    pub fn as_array(&self) -> (r: Option<&Vec<Json>>)
        ensures
            match r {
                Some(v) => self.shape() == JsonView::Array(v.deep_view()),
                None => self.shape().elements() is None,
            },
    {
        match self {
            Json::Array(v) => {
                proof {
                    lemma_array_shape(*v);
                }
                Some(v)
            },
            _ => None,
        }
    }
}

/// The texts of an array that holds nothing else.
pub open spec fn text_list(v: JsonView) -> Option<Seq<Seq<char>>> {
    match v {
        JsonView::Array(items) => if forall|i: int|
            0 <= i < items.len() ==> (#[trigger] items[i]).text() is Some {
            Some(Seq::new(items.len(), |i: int| items[i]->Text_0))
        } else {
            None
        },
        _ => None,
    }
}

impl Json {
    /// The texts of an array that holds nothing else.
    pub fn as_text_list(&self) -> (r: Option<Vec<String>>)
        ensures
            r.deep_view() == text_list(self.shape()),
    {
        match self.as_array() {
            Some(items) => {
                let ghost all = items.deep_view();
                let mut out: Vec<String> = Vec::new();
                let mut i: usize = 0;
                while i < items.len()
                    invariant
                        i <= items.len(),
                        all == items.deep_view(),
                        self.shape() == JsonView::Array(all),
                        out.len() == i,
                        forall|j: int|
                            0 <= j < i ==> (#[trigger] all[j]).text() == Some(out@[j]@),
                    decreases items.len() - i,
                {
                    assert(all[i as int] == items@[i as int].shape());
                    match items[i].as_str() {
                        Some(s) => {
                            out.push(s.to_owned());
                        },
                        None => {
                            assert(all[i as int].text() is None);
                            return None;
                        },
                    }
                    i += 1;
                }
                assert forall|j: int| 0 <= j < all.len() implies all[j]->Text_0 == (#[trigger] out@[j])@ by {
                    assert(all[j].text() is Some);
                }
                assert(out.deep_view() =~= text_list(self.shape())->0);
                Some(out)
            },
            None => None,
        }
    }
}

// ---- Building -----------------------------------------------------------------

/// A JSON text.
pub fn string(s: &str) -> (r: Json)
    ensures
        r.shape() == JsonView::Text(s@),
{
    Json::Text(s.to_owned())
}

/// A JSON number.
pub fn number(n: u64) -> (r: Json)
    ensures
        r.shape() == num(n as int),
{
    Json::Number(Numeral::Unsigned(n))
}

/// A number that is not negative.
pub open spec fn num(n: int) -> JsonView {
    JsonView::Number(Numeral::Unsigned(n as u64))
}

/// A text, or `null` where there is none.
pub open spec fn text_or_null(s: Option<Seq<char>>) -> JsonView {
    match s {
        Some(s) => JsonView::Text(s),
        None => JsonView::Null,
    }
}

pub fn string_or_null(s: Option<&str>) -> (r: Json)
    ensures
        r.shape() == text_or_null(text::opt_view(s)),
{
    match s {
        Some(s) => string(s),
        None => Json::Null,
    }
}

/// An array of texts.
pub open spec fn texts(v: Seq<Seq<char>>) -> JsonView {
    JsonView::Array(Seq::new(v.len(), |i: int| JsonView::Text(v[i])))
}

pub fn strings(v: &Vec<String>) -> (r: Json)
    ensures
        r.shape() == texts(v.deep_view()),
{
    let mut out: Vec<Json> = Vec::new();
    let mut i: usize = 0;
    while i < v.len()
        invariant
            i <= v.len(),
            out.len() == i,
            forall|j: int| 0 <= j < i ==> (#[trigger] out@[j]).shape() == JsonView::Text(v@[j]@),
        decreases v.len() - i,
    {
        out.push(string(v[i].as_str()));
        i += 1;
    }
    proof {
        lemma_array_shape(out);
        assert(out.deep_view() =~= texts(v.deep_view())->Array_0);
    }
    Json::Array(out)
}

impl Json {
    /// A copy of the value.
    pub fn copy(&self) -> (r: Json)
        ensures
            r.shape() == self.shape(),
        decreases self,
    {
        match self {
            Json::Null => Json::Null,
            Json::Bool(b) => Json::Bool(*b),
            Json::Number(Numeral::Unsigned(n)) => Json::Number(Numeral::Unsigned(*n)),
            Json::Number(Numeral::Negative(n)) => Json::Number(Numeral::Negative(*n)),
            Json::Number(Numeral::Fraction(f)) => Json::Number(
                Numeral::Fraction(Fraction { number: f.number.clone() }),
            ),
            Json::Text(s) => Json::Text(s.clone()),
            Json::Array(v) => {
                let mut out: Vec<Json> = Vec::new();
                let mut i: usize = 0;
                while i < v.len()
                    invariant
                        *self == Json::Array(*v),
                        i <= v.len(),
                        out.len() == i,
                        forall|j: int|
                            0 <= j < i ==> (#[trigger] out@[j]).shape() == v@[j].shape(),
                    decreases v.len() - i,
                {
                    assert(decreases_to!(*self => self->Array_0));
                    assert(decreases_to!(self->Array_0 => self->Array_0[i as int]));
                    out.push(v[i].copy());
                    i += 1;
                }
                proof {
                    lemma_array_shape(out);
                    lemma_array_shape(*v);
                    assert(out.deep_view() =~= v.deep_view());
                }
                Json::Array(out)
            },
            Json::Object(v) => {
                let mut out: Vec<(String, Json)> = Vec::new();
                let mut i: usize = 0;
                while i < v.len()
                    invariant
                        *self == Json::Object(*v),
                        i <= v.len(),
                        out.len() == i,
                        forall|j: int|
                            0 <= j < i ==> (#[trigger] out@[j]).1.shape() == v@[j].1.shape()
                                && out@[j].0@ == v@[j].0@,
                    decreases v.len() - i,
                {
                    assert(decreases_to!(*self => self->Object_0));
                    assert(decreases_to!(self->Object_0 => self->Object_0[i as int]));
                    assert(decreases_to!(self->Object_0[i as int] => self->Object_0[i as int].1));
                    out.push((v[i].0.clone(), v[i].1.copy()));
                    i += 1;
                }
                proof {
                    lemma_object_shape(out);
                    lemma_object_shape(*v);
                    assert(entries(out@) =~= entries(v@));
                }
                Json::Object(out)
            },
        }
    }
}

} // verus!
