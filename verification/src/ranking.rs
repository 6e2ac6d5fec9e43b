//! The order of a list, and of the hits of a search.

use vstd::prelude::*;

use crate::cli::{Order, SortField};
use crate::text;
use crate::view::{any_mentioned, any_mentions, keeps, mentioned, mentions, page_of, Filters, FiltersView, Page, Row, RowView};

verus! {

/// What an item is ordered by, and where it stands in the list it comes from. The id
/// decides between items that are otherwise alike.
#[derive(Debug, PartialEq, Eq)]
pub struct SortKey {
    pub major: i64,
    pub minor: u64,
    pub id: String,
    pub index: usize,
}

/// The model of a [`SortKey`].
pub struct KeyView {
    pub major: int,
    pub minor: int,
    pub id: Seq<char>,
    pub index: int,
}

impl DeepView for SortKey {
    type V = KeyView;

    open spec fn deep_view(&self) -> KeyView {
        KeyView {
            major: self.major as int,
            minor: self.minor as int,
            id: self.id@,
            index: self.index as int,
        }
    }
}

/// Does `a` come in front of `b` in rising order?
pub open spec fn rises(a: KeyView, b: KeyView) -> bool {
    if a.major != b.major {
        a.major < b.major
    } else if a.minor != b.minor {
        a.minor < b.minor
    } else {
        text::precedes(a.id, b.id)
    }
}

/// Does `a` come in front of `b`? A falling order is the rising one reversed.
pub open spec fn ahead(a: KeyView, b: KeyView, desc: bool) -> bool {
    if desc {
        rises(b, a)
    } else {
        rises(a, b)
    }
}

fn rising(a: &SortKey, b: &SortKey) -> (r: bool)
    ensures
        r == rises(a.deep_view(), b.deep_view()),
{
    if a.major != b.major {
        a.major < b.major
    } else if a.minor != b.minor {
        a.minor < b.minor
    } else {
        text::less(a.id.as_str(), b.id.as_str())
    }
}

fn is_ahead(a: &SortKey, b: &SortKey, desc: bool) -> (r: bool)
    ensures
        r == ahead(a.deep_view(), b.deep_view(), desc),
{
    if desc {
        rising(b, a)
    } else {
        rising(a, b)
    }
}

proof fn lemma_ahead_total(a: KeyView, b: KeyView, desc: bool)
    ensures
        ahead(a, b, desc) ==> !ahead(b, a, desc),
        !ahead(a, b, desc) && !ahead(b, a, desc) ==> a.major == b.major && a.minor == b.minor
            && a.id == b.id,
{
    text::lemma_precedes_total(a.id, b.id);
    text::lemma_precedes_total(b.id, a.id);
}

proof fn lemma_rises_trans(a: KeyView, b: KeyView, c: KeyView)
    requires
        rises(a, b),
        rises(b, c),
    ensures
        rises(a, c),
{
    if a.major == b.major && b.major == c.major && a.minor == b.minor && b.minor == c.minor {
        text::lemma_precedes_trans(a.id, b.id, c.id);
    }
}

proof fn lemma_ahead_trans(a: KeyView, b: KeyView, c: KeyView, desc: bool)
    requires
        ahead(a, b, desc),
        ahead(b, c, desc),
    ensures
        ahead(a, c, desc),
{
    if desc {
        lemma_rises_trans(c, b, a);
    } else {
        lemma_rises_trans(a, b, c);
    }
}

/// `x` put into `s` behind every key that it is not ahead of.
pub open spec fn placed(s: Seq<KeyView>, x: KeyView, desc: bool) -> Seq<KeyView>
    decreases s.len(),
{
    if s.len() > 0 && ahead(x, s.last(), desc) {
        placed(s.drop_last(), x, desc).push(s.last())
    } else {
        s.push(x)
    }
}

/// The keys in order.
pub open spec fn ranked(s: Seq<KeyView>, desc: bool) -> Seq<KeyView>
    decreases s.len(),
{
    if s.len() == 0 {
        Seq::empty()
    } else {
        placed(ranked(s.drop_last(), desc), s.last(), desc)
    }
}

/// No key comes behind one that it is ahead of.
pub open spec fn is_ranked(s: Seq<KeyView>, desc: bool) -> bool {
    forall|i: int, j: int|
        0 <= i < j < s.len() ==> !ahead(#[trigger] s[j], #[trigger] s[i], desc)
}

proof fn lemma_placed_at(s: Seq<KeyView>, x: KeyView, desc: bool, n: int)
    requires
        0 <= n <= s.len(),
        forall|j: int| n <= j < s.len() ==> ahead(x, #[trigger] s[j], desc),
        n > 0 ==> !ahead(x, s[n - 1], desc),
    ensures
        placed(s, x, desc) == s.insert(n, x),
    decreases s.len() - n,
{
    if n < s.len() {
        lemma_placed_at(s.drop_last(), x, desc, n);
        assert(s.drop_last().insert(n, x).push(s.last()) =~= s.insert(n, x));
    } else {
        assert(s.push(x) =~= s.insert(n, x));
    }
}

proof fn lemma_placed_keeps_order(s: Seq<KeyView>, x: KeyView, desc: bool)
    requires
        is_ranked(s, desc),
    ensures
        is_ranked(placed(s, x, desc), desc),
        placed(s, x, desc).to_multiset() == s.to_multiset().insert(x),
        forall|i: int|
            0 <= i < placed(s, x, desc).len() ==> (#[trigger] placed(s, x, desc)[i] == x
                || s.contains(placed(s, x, desc)[i])),
    decreases s.len(),
{
    broadcast use vstd::seq_lib::to_multiset_build;

    let r = placed(s, x, desc);
    if s.len() > 0 && ahead(x, s.last(), desc) {
        let init = s.drop_last();
        lemma_placed_keeps_order(init, x, desc);
        let mid = placed(init, x, desc);
        assert(s =~= init.push(s.last()));
        assert forall|i: int, j: int| 0 <= i < j < r.len() implies !ahead(
            #[trigger] r[j],
            #[trigger] r[i],
            desc,
        ) by {
            if j == mid.len() {
                assert(r[j] == s.last());
                assert(r[i] == mid[i]);
                if mid[i] == x {
                    lemma_ahead_total(x, s.last(), desc);
                } else {
                    let k = choose|k: int| 0 <= k < init.len() && init[k] == mid[i];
                    assert(s[k] == mid[i] && s[s.len() - 1] == s.last());
                }
            } else {
                assert(r[j] == mid[j] && r[i] == mid[i]);
            }
        }
        assert forall|i: int| 0 <= i < r.len() implies (#[trigger] r[i] == x || s.contains(r[i])) by {
            if i < mid.len() {
                assert(r[i] == mid[i]);
                if mid[i] != x {
                    let k = choose|k: int| 0 <= k < init.len() && init[k] == mid[i];
                    assert(s[k] == r[i]);
                }
            } else {
                assert(s[s.len() - 1] == r[i]);
            }
        }
        assert(init.to_multiset().insert(x).insert(s.last()) =~= init.to_multiset().insert(
            s.last(),
        ).insert(x));
    } else {
        assert forall|i: int, j: int| 0 <= i < j < r.len() implies !ahead(
            #[trigger] r[j],
            #[trigger] r[i],
            desc,
        ) by {
            if j == s.len() {
                if i < s.len() - 1 && ahead(x, s[i], desc) {
                    let last = s.last();
                    lemma_ahead_total(x, last, desc);
                    lemma_ahead_total(s[i], last, desc);
                    assert(!ahead(s[s.len() - 1], s[i], desc));
                    if ahead(s[i], last, desc) {
                        lemma_ahead_trans(x, s[i], last, desc);
                    }
                }
            } else {
                assert(r[j] == s[j] && r[i] == s[i]);
            }
        }
        assert forall|i: int| 0 <= i < r.len() implies (#[trigger] r[i] == x || s.contains(r[i])) by {
            if i < s.len() {
                assert(s[i] == r[i]);
            }
        }
    }
}

/// Ordering puts the keys in order and neither loses nor adds one. Whatever order was
/// asked for ends in the id, so that items of different ids have one order only and paging
/// through them is stable.
pub proof fn law_ranking_is_an_ordered_rearrangement(s: Seq<KeyView>, desc: bool)
    ensures
        is_ranked(ranked(s, desc), desc),
        ranked(s, desc).to_multiset() == s.to_multiset(),
        ranked(s, desc).len() == s.len(),
        forall|a: KeyView, b: KeyView|
            a.id != b.id ==> #[trigger] ahead(a, b, desc) != ahead(b, a, desc),
    decreases s.len(),
{
    broadcast use vstd::seq_lib::to_multiset_build;
    broadcast use vstd::seq_lib::to_multiset_len;

    if s.len() > 0 {
        law_ranking_is_an_ordered_rearrangement(s.drop_last(), desc);
        lemma_placed_keeps_order(ranked(s.drop_last(), desc), s.last(), desc);
        assert(s =~= s.drop_last().push(s.last()));
    } else {
        assert(s =~= Seq::<KeyView>::empty());
    }
    assert(ranked(s, desc).len() == ranked(s, desc).to_multiset().len());
    assert(s.len() == s.to_multiset().len());
    assert forall|a: KeyView, b: KeyView| a.id != b.id implies #[trigger] ahead(a, b, desc)
        != ahead(b, a, desc) by {
        lemma_ahead_total(a, b, desc);
        lemma_ahead_total(b, a, desc);
    }
}

/// Where the keys stood, in their order.
pub open spec fn places(s: Seq<KeyView>) -> Seq<int> {
    Seq::new(s.len(), |i: int| s[i].index)
}

fn place(list: &mut Vec<SortKey>, x: SortKey, desc: bool)
    ensures
        final(list).deep_view() == placed(old(list).deep_view(), x.deep_view(), desc),
{
    let ghost before = list.deep_view();
    let mut n: usize = list.len();
    while n > 0 && is_ahead(&x, &list[n - 1], desc)
        invariant
            n <= list.len(),
            list.deep_view() == before,
            forall|j: int|
                n <= j < before.len() ==> ahead(x.deep_view(), #[trigger] before[j], desc),
        decreases n,
    {
        assert(before[n - 1] == list@[n - 1].deep_view());
        n -= 1;
    }
    proof {
        if n > 0 {
            assert(before[n - 1] == list@[n - 1].deep_view());
        }
        lemma_placed_at(before, x.deep_view(), desc, n as int);
    }
    let ghost v = x.deep_view();
    list.insert(n, x);
    assert(list.deep_view() =~= before.insert(n as int, v));
}

/// Orders the keys, and says where they stood.
pub fn rank(keys: Vec<SortKey>, desc: bool) -> (r: Vec<usize>)
    ensures
        r.len() == ranked(keys.deep_view(), desc).len(),
        forall|i: int|
            0 <= i < r.len() ==> #[trigger] r@[i] == ranked(keys.deep_view(), desc)[i].index,
{
    let ghost all = keys.deep_view();
    let ghost mut done: int = 0;
    let mut rest: Vec<SortKey> = keys;
    let mut out: Vec<SortKey> = Vec::new();
    assert(all.skip(0) =~= all);
    assert(out.deep_view() =~= ranked(all.take(0), desc));
    while rest.len() > 0
        invariant
            0 <= done <= all.len(),
            rest.deep_view() == all.skip(done),
            out.deep_view() == ranked(all.take(done), desc),
        decreases rest.len(),
    {
        let ghost prev = rest.deep_view();
        assert(prev.len() == rest.len());
        let first = rest.remove(0);
        assert(rest.deep_view() =~= prev.drop_first());
        assert(prev[0] == all[done]);
        assert(first.deep_view() == prev[0]);
        assert(all.take(done + 1).drop_last() =~= all.take(done));
        place(&mut out, first, desc);
        proof {
            done = done + 1;
            assert(prev.drop_first() =~= all.skip(done));
        }
    }
    proof {
        assert(rest.deep_view().len() == 0);
        assert(all.take(done) =~= all);
    }
    let ghost done_keys = out.deep_view();
    let mut r: Vec<usize> = Vec::new();
    let mut i: usize = 0;
    while i < out.len()
        invariant
            i <= out.len(),
            done_keys == out.deep_view(),
            r.len() == i,
            forall|j: int| 0 <= j < i ==> #[trigger] r@[j] == done_keys[j].index,
        decreases out.len() - i,
    {
        assert(done_keys[i as int] == out@[i as int].deep_view());
        r.push(out[i].index);
        i += 1;
    }
    r
}

// ---- Lists --------------------------------------------------------------------

/// What a list is ordered by: its rank is the priority, then the dependency order; a
/// status and a type have the order in which they are declared.
pub open spec fn key_of(field: SortField, r: RowView, index: int) -> KeyView {
    let (major, minor) = match field {
        SortField::Rank => (r.priority as int, r.rank as int),
        SortField::Priority => (r.priority as int, 0),
        SortField::Created => (r.created as int, 0),
        SortField::Updated => (r.updated as int, 0),
        SortField::Id => (0, 0),
        SortField::Status => (r.status.place(), 0),
        SortField::Type => (r.item_type.place(), 0),
    };
    KeyView { major, minor, id: r.id, index }
}

/// What an item is ordered by.
pub fn key_for(field: SortField, row: &Row, index: usize) -> (r: SortKey)
    ensures
        r.deep_view() == key_of(field, row.deep_view(), index as int),
{
    let id = row.id.clone();
    match field {
        SortField::Rank => SortKey { major: row.priority as i64, minor: row.rank, id, index },
        SortField::Priority => SortKey { major: row.priority as i64, minor: 0, id, index },
        SortField::Created => SortKey { major: row.created, minor: 0, id, index },
        SortField::Updated => SortKey { major: row.updated, minor: 0, id, index },
        SortField::Id => SortKey { major: 0, minor: 0, id, index },
        SortField::Status => SortKey { major: row.status.position() as i64, minor: 0, id, index },
        SortField::Type => SortKey { major: row.item_type.position() as i64, minor: 0, id, index },
    }
}

/// The keys of the rows at the given places.
pub open spec fn keys_of(field: SortField, rows: Seq<RowView>, chosen: Seq<int>) -> Seq<KeyView> {
    Seq::new(chosen.len(), |i: int| key_of(field, rows[chosen[i]], chosen[i]))
}

/// The places of the chosen rows, in order.
pub open spec fn arranged(order: Order, rows: Seq<RowView>, chosen: Seq<int>) -> Seq<int> {
    places(ranked(keys_of(order.field, rows, chosen), order.desc))
}

/// The places in a list as mathematical integers.
pub open spec fn as_places(v: Seq<usize>) -> Seq<int> {
    Seq::new(v.len(), |i: int| v[i] as int)
}

/// Every place in an arrangement is one of those that were chosen.
pub proof fn lemma_arranged_within(order: Order, rows: Seq<RowView>, chosen: Seq<int>)
    ensures
        arranged(order, rows, chosen).len() == chosen.len(),
        forall|i: int|
            0 <= i < chosen.len() ==> chosen.contains(#[trigger] arranged(order, rows, chosen)[i]),
{
    broadcast use vstd::seq_lib::to_multiset_contains;

    let keys = keys_of(order.field, rows, chosen);
    let sorted = ranked(keys, order.desc);
    law_ranking_is_an_ordered_rearrangement(keys, order.desc);
    assert forall|i: int| 0 <= i < chosen.len() implies chosen.contains(
        #[trigger] arranged(order, rows, chosen)[i],
    ) by {
        assert(sorted.contains(sorted[i]));
        assert(sorted.to_multiset().count(sorted[i]) > 0);
        assert(keys.contains(sorted[i]));
        let k = choose|k: int| 0 <= k < keys.len() && keys[k] == sorted[i];
        assert(chosen[k] == sorted[i].index);
    }
}

/// Arranges the rows at the given places.
pub fn arrange(order: Order, rows: &Vec<Row>, chosen: &Vec<usize>) -> (r: Vec<usize>)
    requires
        forall|i: int| 0 <= i < chosen.len() ==> #[trigger] chosen@[i] < rows.len(),
    ensures
        as_places(r@) == arranged(order, rows.deep_view(), as_places(chosen@)),
        r.len() == chosen.len(),
        forall|i: int| 0 <= i < r.len() ==> #[trigger] r@[i] < rows.len(),
{
    let ghost all = rows.deep_view();
    let ghost at = as_places(chosen@);
    let mut keys: Vec<SortKey> = Vec::new();
    let mut i: usize = 0;
    while i < chosen.len()
        invariant
            i <= chosen.len(),
            all == rows.deep_view(),
            at == as_places(chosen@),
            forall|j: int| 0 <= j < chosen.len() ==> #[trigger] chosen@[j] < rows.len(),
            keys.len() == i,
            forall|j: int|
                0 <= j < i ==> (#[trigger] keys@[j]).deep_view() == key_of(
                    order.field,
                    all[at[j]],
                    at[j],
                ),
        decreases chosen.len() - i,
    {
        let n = chosen[i];
        assert(at[i as int] == n);
        assert(all[n as int] == rows@[n as int].deep_view());
        keys.push(key_for(order.field, &rows[n], n));
        i += 1;
    }
    assert(keys.deep_view() =~= keys_of(order.field, all, at));
    let r = rank(keys, order.desc);
    assert(as_places(r@) =~= arranged(order, all, at));
    proof {
        lemma_arranged_within(order, all, at);
        assert forall|i: int| 0 <= i < r.len() implies #[trigger] r@[i] < rows.len() by {
            let p = arranged(order, all, at)[i];
            assert(as_places(r@)[i] == p);
            let k = choose|k: int| 0 <= k < at.len() && at[k] == p;
            assert(chosen@[k] < rows.len());
        }
    }
    r
}

/// The places of the items among the first `n` that a filter set keeps.
pub open spec fn kept_places(f: FiltersView, rows: Seq<RowView>, n: int) -> Seq<int>
    decreases n,
{
    if n <= 0 {
        Seq::empty()
    } else {
        let rest = kept_places(f, rows, n - 1);
        if keeps(f, rows[n - 1]) {
            rest.push(n - 1)
        } else {
            rest
        }
    }
}

/// The places of the items that a filter set keeps.
pub fn select(filters: &Filters, rows: &Vec<Row>) -> (r: Vec<usize>)
    ensures
        as_places(r@) == kept_places(filters.deep_view(), rows.deep_view(), rows.len() as int),
        forall|i: int| 0 <= i < r.len() ==> #[trigger] r@[i] < rows.len(),
{
    let ghost all = rows.deep_view();
    let ghost f = filters.deep_view();
    let mut out: Vec<usize> = Vec::new();
    let mut i: usize = 0;
    assert(as_places(out@) =~= kept_places(f, all, 0));
    while i < rows.len()
        invariant
            i <= rows.len(),
            all == rows.deep_view(),
            f == filters.deep_view(),
            as_places(out@) == kept_places(f, all, i as int),
            forall|j: int| 0 <= j < out.len() ==> #[trigger] out@[j] < rows.len(),
        decreases rows.len() - i,
    {
        let ghost prev = as_places(out@);
        assert(all[i as int] == rows@[i as int].deep_view());
        if filters.matches(&rows[i]) {
            out.push(i);
            assert(as_places(out@) =~= prev.push(i as int));
        }
        i += 1;
    }
    out
}

/// A list keeps exactly the items that its filters keep.
pub proof fn law_a_list_keeps_what_its_filters_keep(f: FiltersView, rows: Seq<RowView>, n: int, k: int)
    requires
        0 <= k < n <= rows.len(),
    ensures
        kept_places(f, rows, n).contains(k) <==> keeps(f, rows[k]),
    decreases n,
{
    lemma_kept_below(f, rows, n - 1);
    let rest = kept_places(f, rows, n - 1);
    let all = kept_places(f, rows, n);
    if k < n - 1 {
        law_a_list_keeps_what_its_filters_keep(f, rows, n - 1, k);
        if rest.contains(k) {
            let i = choose|i: int| 0 <= i < rest.len() && rest[i] == k;
            assert(all[i] == k);
        }
        if all.contains(k) {
            let i = choose|i: int| 0 <= i < all.len() && all[i] == k;
            assert(rest[i] == k);
        }
    } else {
        if keeps(f, rows[k]) {
            assert(all[all.len() - 1] == k);
        }
        if all.contains(k) && !keeps(f, rows[k]) {
            let i = choose|i: int| 0 <= i < all.len() && all[i] == k;
            assert(rest[i] < n - 1);
        }
    }
}

proof fn lemma_kept_below(f: FiltersView, rows: Seq<RowView>, n: int)
    requires
        0 <= n <= rows.len(),
    ensures
        forall|i: int|
            0 <= i < kept_places(f, rows, n).len() ==> 0 <= #[trigger] kept_places(f, rows, n)[i]
                < n,
    decreases n,
{
    if n > 0 {
        lemma_kept_below(f, rows, n - 1);
        let rest = kept_places(f, rows, n - 1);
        let all = kept_places(f, rows, n);
        assert forall|i: int| 0 <= i < all.len() implies 0 <= #[trigger] all[i] < n by {
            if i < rest.len() {
                assert(all[i] == rest[i]);
            }
        }
    }
}

/// What a list shows of the files: the page of the items that are kept, in order.
pub open spec fn listed(
    f: FiltersView,
    order: Order,
    window: Page,
    rows: Seq<RowView>,
) -> Seq<int> {
    page_of(arranged(order, rows, kept_places(f, rows, rows.len() as int)), window)
}

/// Lists the files: the places of the page, and how many there are in all.
pub fn list_rows(filters: &Filters, order: Order, window: Page, rows: &Vec<Row>) -> (r: (
    Vec<usize>,
    usize,
))
    ensures
        as_places(r.0@) == listed(filters.deep_view(), order, window, rows.deep_view()),
        r.1 == kept_places(filters.deep_view(), rows.deep_view(), rows.len() as int).len(),
        forall|i: int| 0 <= i < r.0.len() ==> #[trigger] r.0@[i] < rows.len(),
{
    let chosen = select(filters, rows);
    let sorted = arrange(order, rows, &chosen);
    let total = sorted.len();
    let page = cut(&sorted, window);
    (page, total)
}

/// Cuts a page out of a list of places.
pub fn cut(places: &Vec<usize>, window: Page) -> (r: Vec<usize>)
    ensures
        as_places(r@) == page_of(as_places(places@), window),
        forall|i: int| 0 <= i < r.len() ==> places@.contains(#[trigger] r@[i]),
{
    let ghost all = as_places(places@);
    let (first, end) = window.bounds(places.len());
    let mut out: Vec<usize> = Vec::new();
    let mut i: usize = first;
    while i < end
        invariant
            first <= i <= end <= places.len(),
            out.len() == i - first,
            forall|j: int| 0 <= j < out.len() ==> #[trigger] out@[j] == places@[first + j],
        decreases end - i,
    {
        out.push(places[i]);
        i += 1;
    }
    assert(as_places(out@) =~= page_of(all, window));
    assert forall|i: int| 0 <= i < out.len() implies places@.contains(#[trigger] out@[i]) by {
        assert(out@[i] == places@[first + i]);
    }
    out
}

// ---- Search -------------------------------------------------------------------

/// Where a search finds its text: in the title, else in a label, else in the body.
pub open spec fn hit_class(r: RowView, body: Seq<char>, needle: Seq<char>) -> Option<int> {
    if mentions(r.title, needle) {
        Some(0)
    } else if any_mentions(r.labels, needle) {
        Some(1)
    } else if mentions(body, needle) {
        Some(2)
    } else {
        None
    }
}

/// Where a search finds its text.
pub fn match_class(row: &Row, body: &str, needle: &str) -> (r: Option<u8>)
    ensures
        match r {
            Some(c) => hit_class(row.deep_view(), body@, needle@) == Some(c as int),
            None => hit_class(row.deep_view(), body@, needle@) is None,
        },
{
    if mentioned(row.title.as_str(), needle) {
        Some(0)
    } else if any_mentioned(&row.labels, needle) {
        Some(1)
    } else if mentioned(body, needle) {
        Some(2)
    } else {
        None
    }
}

/// The order of a search: by relevance, unless a field is named.
#[derive(Debug, Clone, Copy, PartialEq, Eq, Structural)]
pub struct SearchOrder {
    pub field: Option<SortField>,
    pub desc: bool,
}

impl SearchOrder {
    /// The word that is reported for what a search is sorted by.
    pub open spec fn sort_word(self) -> Seq<char> {
        match self.field {
            None => "relevance"@,
            Some(f) => f.word(),
        }
    }

    pub fn reported_sort(self) -> (r: &'static str)
        ensures
            r@ == self.sort_word(),
    {
        match self.field {
            None => "relevance",
            Some(f) => f.as_str(),
        }
    }

    /// The word for the direction.
    pub open spec fn dir_word(self) -> Seq<char> {
        if self.desc {
            "desc"@
        } else {
            "asc"@
        }
    }

    pub fn dir_str(self) -> (r: &'static str)
        ensures
            r@ == self.dir_word(),
    {
        if self.desc {
            "desc"
        } else {
            "asc"
        }
    }
}

/// The order of a search that `--sort` and `--desc` ask for.
pub open spec fn search_order_named(sort: Option<Seq<char>>, desc: bool) -> Result<
    SearchOrder,
    crate::error::ErrorView,
> {
    match sort {
        None => Ok(SearchOrder { field: None, desc }),
        Some(_) => match crate::cli::order_named(sort, desc) {
            Ok(o) => Ok(SearchOrder { field: Some(o.field), desc }),
            Err(e) => Err(e),
        },
    }
}

/// Decodes `--sort`/`--desc` of a search.
pub fn search_order_of(sort: Option<&str>, desc: bool) -> (r: Result<
    SearchOrder,
    crate::error::CloveError,
>)
    ensures
        match r {
            Ok(o) => search_order_named(text::opt_view(sort), desc) == Ok::<
                SearchOrder,
                crate::error::ErrorView,
            >(o),
            Err(e) => search_order_named(text::opt_view(sort), desc) == Err::<
                SearchOrder,
                crate::error::ErrorView,
            >(e.deep_view()),
        },
{
    match sort {
        None => Ok(SearchOrder { field: None, desc }),
        Some(_) => match crate::cli::order_of(sort, desc) {
            Ok(o) => Ok(SearchOrder { field: Some(o.field), desc }),
            Err(e) => Err(e),
        },
    }
}

/// What a hit is ordered by: where it was found, then its priority; or a field.
pub open spec fn hit_key(
    order: SearchOrder,
    r: RowView,
    body: Seq<char>,
    needle: Seq<char>,
    index: int,
) -> KeyView {
    match order.field {
        Some(f) => key_of(f, r, index),
        None => KeyView {
            major: hit_class(r, body, needle)->0,
            minor: r.priority as int,
            id: r.id,
            index,
        },
    }
}

/// The keys of the hits among the first `n` items.
pub open spec fn hit_keys(
    order: SearchOrder,
    rows: Seq<RowView>,
    bodies: Seq<Seq<char>>,
    needle: Seq<char>,
    n: int,
) -> Seq<KeyView>
    decreases n,
{
    if n <= 0 {
        Seq::empty()
    } else {
        let rest = hit_keys(order, rows, bodies, needle, n - 1);
        if hit_class(rows[n - 1], bodies[n - 1], needle) is Some {
            rest.push(hit_key(order, rows[n - 1], bodies[n - 1], needle, n - 1))
        } else {
            rest
        }
    }
}

/// The places of the hits of a search, in order.
pub open spec fn found(
    order: SearchOrder,
    rows: Seq<RowView>,
    bodies: Seq<Seq<char>>,
    needle: Seq<char>,
) -> Seq<int> {
    places(
        ranked(hit_keys(order, rows, bodies, needle, rows.len() as int), order.desc),
    )
}

proof fn lemma_hit_keys(
    order: SearchOrder,
    rows: Seq<RowView>,
    bodies: Seq<Seq<char>>,
    needle: Seq<char>,
    n: int,
)
    requires
        0 <= n <= rows.len(),
    ensures
        forall|i: int|
            0 <= i < hit_keys(order, rows, bodies, needle, n).len() ==> 0 <= (
            #[trigger] hit_keys(order, rows, bodies, needle, n)[i]).index < n && hit_class(
                rows[hit_keys(order, rows, bodies, needle, n)[i].index],
                bodies[hit_keys(order, rows, bodies, needle, n)[i].index],
                needle,
            ) is Some,
        forall|k: int|
            0 <= k < n && (#[trigger] hit_class(rows[k], bodies[k], needle)) is Some
                ==> exists|i: int|
                0 <= i < hit_keys(order, rows, bodies, needle, n).len() && (
                #[trigger] hit_keys(order, rows, bodies, needle, n)[i]).index == k,
    decreases n,
{
    if n > 0 {
        lemma_hit_keys(order, rows, bodies, needle, n - 1);
        let rest = hit_keys(order, rows, bodies, needle, n - 1);
        let all = hit_keys(order, rows, bodies, needle, n);
        assert forall|k: int|
            0 <= k < n && (#[trigger] hit_class(rows[k], bodies[k], needle)) is Some implies exists|
            i: int,
        | 0 <= i < all.len() && (#[trigger] all[i]).index == k by {
            if k < n - 1 {
                let i = choose|i: int| 0 <= i < rest.len() && (#[trigger] rest[i]).index == k;
                assert(all[i] == rest[i]);
            } else {
                assert(all[all.len() - 1].index == k);
            }
        }
    }
}

/// A search finds an item exactly when its title, one of its labels or its body has the
/// text in it, whatever the case.
pub proof fn law_search_finds_every_mention(
    order: SearchOrder,
    rows: Seq<RowView>,
    bodies: Seq<Seq<char>>,
    needle: Seq<char>,
    k: int,
)
    requires
        0 <= k < rows.len(),
    ensures
        found(order, rows, bodies, needle).contains(k) <==> mentions(rows[k].title, needle)
            || any_mentions(rows[k].labels, needle) || mentions(bodies[k], needle),
{
    broadcast use vstd::seq_lib::to_multiset_contains;

    let n = rows.len() as int;
    let keys = hit_keys(order, rows, bodies, needle, n);
    let sorted = ranked(keys, order.desc);
    law_ranking_is_an_ordered_rearrangement(keys, order.desc);
    lemma_hit_keys(order, rows, bodies, needle, n);
    let there = found(order, rows, bodies, needle);
    if there.contains(k) {
        let i = choose|i: int| 0 <= i < there.len() && there[i] == k;
        assert(sorted.contains(sorted[i]));
        assert(sorted.to_multiset().count(sorted[i]) > 0);
        assert(keys.contains(sorted[i]));
        let j = choose|j: int| 0 <= j < keys.len() && keys[j] == sorted[i];
        assert(keys[j].index == k);
        assert(hit_class(rows[k], bodies[k], needle) is Some);
    }
    if hit_class(rows[k], bodies[k], needle) is Some {
        let j = choose|j: int| 0 <= j < keys.len() && (#[trigger] keys[j]).index == k;
        assert(keys.contains(keys[j]));
        assert(keys.to_multiset().count(keys[j]) > 0);
        assert(sorted.contains(keys[j]));
        let i = choose|i: int| 0 <= i < sorted.len() && sorted[i] == keys[j];
        assert(there[i] == k);
    }
}

/// Without a field, a hit in a title comes in front of one in a label, and that in front of
/// one in a body.
pub proof fn law_title_hits_come_first(
    a: RowView,
    b: RowView,
    body_a: Seq<char>,
    body_b: Seq<char>,
    needle: Seq<char>,
    i: int,
    j: int,
)
    requires
        hit_class(a, body_a, needle) is Some,
        hit_class(b, body_b, needle) is Some,
        hit_class(a, body_a, needle)->0 < hit_class(b, body_b, needle)->0,
    ensures
        ahead(
            hit_key(SearchOrder { field: None, desc: false }, a, body_a, needle, i),
            hit_key(SearchOrder { field: None, desc: false }, b, body_b, needle, j),
            false,
        ),
{
}

/// Searches the items, and says where the hits stand.
pub fn search_rows(order: SearchOrder, rows: &Vec<Row>, bodies: &Vec<String>, needle: &str) -> (r:
    Vec<usize>)
    requires
        rows.len() == bodies.len(),
    ensures
        as_places(r@) == found(order, rows.deep_view(), bodies.deep_view(), needle@),
        forall|i: int| 0 <= i < r.len() ==> #[trigger] r@[i] < rows.len(),
{
    let ghost all = rows.deep_view();
    let ghost texts = bodies.deep_view();
    let mut keys: Vec<SortKey> = Vec::new();
    let mut i: usize = 0;
    assert(keys.deep_view() =~= hit_keys(order, all, texts, needle@, 0));
    while i < rows.len()
        invariant
            i <= rows.len(),
            rows.len() == bodies.len(),
            all == rows.deep_view(),
            texts == bodies.deep_view(),
            keys.deep_view() == hit_keys(order, all, texts, needle@, i as int),
        decreases rows.len() - i,
    {
        let ghost prev = keys.deep_view();
        assert(all[i as int] == rows@[i as int].deep_view());
        assert(texts[i as int] == bodies@[i as int]@);
        if let Some(class) = match_class(&rows[i], bodies[i].as_str(), needle) {
            let key = match order.field {
                Some(f) => key_for(f, &rows[i], i),
                None => SortKey {
                    major: class as i64,
                    minor: rows[i].priority as u64,
                    id: rows[i].id.clone(),
                    index: i,
                },
            };
            let ghost view = key.deep_view();
            keys.push(key);
            assert(keys.deep_view() =~= prev.push(view));
        }
        i += 1;
    }
    let ghost hits = keys.deep_view();
    let r = rank(keys, order.desc);
    assert(as_places(r@) =~= found(order, all, texts, needle@));
    proof {
        broadcast use vstd::seq_lib::to_multiset_contains;

        law_ranking_is_an_ordered_rearrangement(hits, order.desc);
        lemma_hit_keys(order, all, texts, needle@, all.len() as int);
        let sorted = ranked(hits, order.desc);
        assert forall|i: int| 0 <= i < r.len() implies #[trigger] r@[i] < rows.len() by {
            assert(sorted.contains(sorted[i]));
            assert(sorted.to_multiset().count(sorted[i]) > 0);
            assert(hits.contains(sorted[i]));
            let k = choose|k: int| 0 <= k < hits.len() && hits[k] == sorted[i];
            assert(hits[k].index < all.len());
        }
    }
    r
}

// ---- What the order of a list means ---------------------------------------------

proof fn lemma_arranged_keys(order: Order, rows: Seq<RowView>, chosen: Seq<int>, i: int)
    requires
        0 <= i < arranged(order, rows, chosen).len(),
    ensures
        ranked(keys_of(order.field, rows, chosen), order.desc)[i] == key_of(
            order.field,
            rows[arranged(order, rows, chosen)[i]],
            arranged(order, rows, chosen)[i],
        ),
{
    broadcast use vstd::seq_lib::to_multiset_contains;

    let keys = keys_of(order.field, rows, chosen);
    let sorted = ranked(keys, order.desc);
    law_ranking_is_an_ordered_rearrangement(keys, order.desc);
    assert(sorted.contains(sorted[i]));
    assert(sorted.to_multiset().count(sorted[i]) > 0);
    assert(keys.contains(sorted[i]));
    let k = choose|k: int| 0 <= k < keys.len() && keys[k] == sorted[i];
    assert(chosen[k] == sorted[i].index);
}

/// Does the first item belong in front of the second in a list by this field, or beside it?
/// Items that the field does not tell apart come in the order of their ids.
pub open spec fn in_order(field: SortField, a: RowView, b: RowView) -> bool {
    match field {
        SortField::Rank => a.priority < b.priority || a.priority == b.priority && (a.rank < b.rank
            || a.rank == b.rank && !text::precedes(b.id, a.id)),
        SortField::Priority => a.priority < b.priority || a.priority == b.priority
            && !text::precedes(b.id, a.id),
        SortField::Created => a.created < b.created || a.created == b.created && !text::precedes(
            b.id,
            a.id,
        ),
        SortField::Updated => a.updated < b.updated || a.updated == b.updated && !text::precedes(
            b.id,
            a.id,
        ),
        SortField::Id => !text::precedes(b.id, a.id),
        SortField::Status => a.status.place() < b.status.place() || a.status == b.status
            && !text::precedes(b.id, a.id),
        SortField::Type => a.item_type.place() < b.item_type.place() || a.item_type == b.item_type
            && !text::precedes(b.id, a.id),
    }
}

/// A list stands in the order that was asked for: of any two of its items the earlier one
/// belongs in front by the field of the order, and behind when the order is reversed.
pub proof fn law_a_list_stands_in_the_asked_order(
    order: Order,
    rows: Seq<RowView>,
    chosen: Seq<int>,
    i: int,
    j: int,
)
    requires
        0 <= i < j < arranged(order, rows, chosen).len(),
    ensures
        !order.desc ==> in_order(
            order.field,
            rows[arranged(order, rows, chosen)[i]],
            rows[arranged(order, rows, chosen)[j]],
        ),
        order.desc ==> in_order(
            order.field,
            rows[arranged(order, rows, chosen)[j]],
            rows[arranged(order, rows, chosen)[i]],
        ),
{
    let keys = keys_of(order.field, rows, chosen);
    let sorted = ranked(keys, order.desc);
    law_ranking_is_an_ordered_rearrangement(keys, order.desc);
    lemma_arranged_keys(order, rows, chosen, i);
    lemma_arranged_keys(order, rows, chosen, j);
    assert(!ahead(sorted[j], sorted[i], order.desc));
}

/// Open items come before those in progress, and those before closed ones.
pub proof fn law_statuses_are_in_the_order_of_work()
    ensures
        crate::view::ItemStatus::Open.place() < crate::view::ItemStatus::InProgress.place(),
        crate::view::ItemStatus::InProgress.place() < crate::view::ItemStatus::Closed.place(),
        forall|a: crate::view::ItemType, b: crate::view::ItemType| #[trigger]
            a.place() == #[trigger] b.place() ==> a == b,
{
}

/// A list holds each of the chosen items, as often as it was chosen, and no other.
pub proof fn law_a_list_holds_the_chosen_items(order: Order, rows: Seq<RowView>, chosen: Seq<int>)
    ensures
        arranged(order, rows, chosen).len() == chosen.len(),
        forall|k: int| chosen.contains(k) <==> #[trigger] arranged(order, rows, chosen).contains(k),
{
    broadcast use vstd::seq_lib::to_multiset_contains;

    lemma_arranged_within(order, rows, chosen);
    let keys = keys_of(order.field, rows, chosen);
    let sorted = ranked(keys, order.desc);
    let at = arranged(order, rows, chosen);
    law_ranking_is_an_ordered_rearrangement(keys, order.desc);
    assert forall|k: int| chosen.contains(k) implies #[trigger] at.contains(k) by {
        let i = choose|i: int| 0 <= i < chosen.len() && chosen[i] == k;
        assert(keys.contains(keys[i]));
        assert(keys.to_multiset().count(keys[i]) > 0);
        assert(sorted.contains(keys[i]));
        let j = choose|j: int| 0 <= j < sorted.len() && sorted[j] == keys[i];
        assert(at[j] == k);
    }
    assert forall|k: int| #[trigger] at.contains(k) implies chosen.contains(k) by {
        let j = choose|j: int| 0 <= j < at.len() && at[j] == k;
        assert(chosen.contains(at[j]));
    }
}

/// Every item of a list is one that the filters keep; and without a limit and an offset every
/// item that they keep is in the list.
pub proof fn law_a_list_shows_what_its_filters_keep(
    f: FiltersView,
    order: Order,
    window: Page,
    rows: Seq<RowView>,
    k: int,
)
    ensures
        listed(f, order, window, rows).contains(k) ==> 0 <= k < rows.len() && keeps(f, rows[k]),
        window.offset == 0 && window.limit is None && 0 <= k < rows.len() && keeps(f, rows[k])
            ==> listed(f, order, window, rows).contains(k),
{
    let n = rows.len() as int;
    let chosen = kept_places(f, rows, n);
    let at = arranged(order, rows, chosen);
    let shown = listed(f, order, window, rows);
    law_a_list_holds_the_chosen_items(order, rows, chosen);
    lemma_kept_below(f, rows, n);
    if shown.contains(k) {
        let i = choose|i: int| 0 <= i < shown.len() && shown[i] == k;
        assert(at[i + window.first(at.len() as int)] == k);
        assert(at.contains(k));
        let j = choose|j: int| 0 <= j < chosen.len() && chosen[j] == k;
        assert(0 <= chosen[j] < n);
        law_a_list_keeps_what_its_filters_keep(f, rows, n, k);
    }
    if window.offset == 0 && window.limit is None && 0 <= k < n && keeps(f, rows[k]) {
        law_a_list_keeps_what_its_filters_keep(f, rows, n, k);
        assert(at.contains(k));
        let i = choose|i: int| 0 <= i < at.len() && at[i] == k;
        assert(shown[i] == k);
    }
}

proof fn lemma_hit_key_of(
    order: SearchOrder,
    rows: Seq<RowView>,
    bodies: Seq<Seq<char>>,
    needle: Seq<char>,
    n: int,
)
    requires
        0 <= n <= rows.len(),
    ensures
        forall|i: int|
            0 <= i < hit_keys(order, rows, bodies, needle, n).len() ==> {
                let key = #[trigger] hit_keys(order, rows, bodies, needle, n)[i];
                &&& 0 <= key.index < n
                &&& hit_class(rows[key.index], bodies[key.index], needle) is Some
                &&& key == hit_key(order, rows[key.index], bodies[key.index], needle, key.index)
            },
    decreases n,
{
    if n > 0 {
        lemma_hit_key_of(order, rows, bodies, needle, n - 1);
    }
}

/// Where a search was not asked for another order, items whose title has the text in it come
/// first, then those with a label that has, then those with a body that has; items alike in
/// that come by priority. With a field it stands in the order of that field.
pub proof fn law_a_search_stands_in_its_order(
    order: SearchOrder,
    rows: Seq<RowView>,
    bodies: Seq<Seq<char>>,
    needle: Seq<char>,
    i: int,
    j: int,
)
    requires
        0 <= i < j < found(order, rows, bodies, needle).len(),
    ensures
        ({
            let x = found(order, rows, bodies, needle)[i];
            let y = found(order, rows, bodies, needle)[j];
            let a = rows[x];
            let b = rows[y];
            &&& order.field matches Some(f) ==> (!order.desc ==> in_order(f, a, b)) && (order.desc
                ==> in_order(f, b, a))
            &&& order.field is None && !order.desc ==> {
                &&& mentions(b.title, needle) ==> mentions(a.title, needle)
                &&& any_mentions(b.labels, needle) ==> mentions(a.title, needle) || any_mentions(
                    a.labels,
                    needle,
                )
                &&& mentions(a.title, needle) && mentions(b.title, needle) ==> a.priority
                    <= b.priority
            }
        }),
{
    broadcast use vstd::seq_lib::to_multiset_contains;

    let keys = hit_keys(order, rows, bodies, needle, rows.len() as int);
    let sorted = ranked(keys, order.desc);
    law_ranking_is_an_ordered_rearrangement(keys, order.desc);
    lemma_hit_key_of(order, rows, bodies, needle, rows.len() as int);
    assert(sorted.contains(sorted[i]) && sorted.contains(sorted[j]));
    assert(sorted.to_multiset().count(sorted[i]) > 0);
    assert(sorted.to_multiset().count(sorted[j]) > 0);
    assert(keys.contains(sorted[i]) && keys.contains(sorted[j]));
    let k = choose|k: int| 0 <= k < keys.len() && keys[k] == sorted[i];
    let m = choose|m: int| 0 <= m < keys.len() && keys[m] == sorted[j];
    assert(!ahead(sorted[j], sorted[i], order.desc));
    assert(keys[k] == sorted[i] && keys[m] == sorted[j]);
}

} // verus!
