//! Lists kept in the order of their elements' names.

use vstd::prelude::*;

use crate::text;

verus! {

/// Something that has a name to be ordered by.
pub trait Named: DeepView + Sized {
    /// The name in the model.
    spec fn label(v: Self::V) -> Seq<char>;

    fn name(&self) -> (r: &str)
        ensures
            r@ == Self::label(self.deep_view()),
    ;
}

/// The name of an element, as a function.
pub open spec fn by_name<T: Named>() -> spec_fn(T::V) -> Seq<char> {
    |v: T::V| T::label(v)
}

/// `x` put into `s` behind every element that it does not precede.
pub open spec fn insert_by<V>(s: Seq<V>, x: V, key: spec_fn(V) -> Seq<char>) -> Seq<V>
    decreases s.len(),
{
    if s.len() > 0 && text::precedes(key(x), key(s.last())) {
        insert_by(s.drop_last(), x, key).push(s.last())
    } else {
        s.push(x)
    }
}

/// The elements of `s` in the order of their names, those of equal name in the order
/// they had.
pub open spec fn sorted_by<V>(s: Seq<V>, key: spec_fn(V) -> Seq<char>) -> Seq<V>
    decreases s.len(),
{
    if s.len() == 0 {
        Seq::empty()
    } else {
        insert_by(sorted_by(s.drop_last(), key), s.last(), key)
    }
}

/// No element comes behind one that it precedes.
pub open spec fn in_order<V>(s: Seq<V>, key: spec_fn(V) -> Seq<char>) -> bool {
    forall|i: int, j: int|
        0 <= i < j < s.len() ==> !text::precedes(key(#[trigger] s[j]), key(#[trigger] s[i]))
}

proof fn lemma_insert_at<V>(s: Seq<V>, x: V, key: spec_fn(V) -> Seq<char>, n: int)
    requires
        0 <= n <= s.len(),
        forall|j: int| n <= j < s.len() ==> text::precedes(key(x), key(#[trigger] s[j])),
        n > 0 ==> !text::precedes(key(x), key(s[n - 1])),
    ensures
        insert_by(s, x, key) == s.insert(n, x),
    decreases s.len() - n,
{
    if n < s.len() {
        lemma_insert_at(s.drop_last(), x, key, n);
        assert(s.drop_last().insert(n, x).push(s.last()) =~= s.insert(n, x));
    } else {
        assert(s.push(x) =~= s.insert(n, x));
    }
}

proof fn lemma_insert_keeps_order<V>(s: Seq<V>, x: V, key: spec_fn(V) -> Seq<char>)
    requires
        in_order(s, key),
    ensures
        in_order(insert_by(s, x, key), key),
        insert_by(s, x, key).to_multiset() == s.to_multiset().insert(x),
        forall|i: int|
            0 <= i < insert_by(s, x, key).len() ==> (#[trigger] insert_by(s, x, key)[i] == x
                || s.contains(insert_by(s, x, key)[i])),
    decreases s.len(),
{
    broadcast use vstd::seq_lib::to_multiset_build;

    let r = insert_by(s, x, key);
    if s.len() > 0 && text::precedes(key(x), key(s.last())) {
        let init = s.drop_last();
        lemma_insert_keeps_order(init, x, key);
        let mid = insert_by(init, x, key);
        assert(s =~= init.push(s.last()));
        assert forall|i: int, j: int| 0 <= i < j < r.len() implies !text::precedes(
            key(#[trigger] r[j]),
            key(#[trigger] r[i]),
        ) by {
            if j == mid.len() {
                assert(r[j] == s.last());
                assert(r[i] == mid[i]);
                if mid[i] == x {
                    text::lemma_precedes_total(key(x), key(s.last()));
                } else {
                    let k = choose|k: int| 0 <= k < init.len() && init[k] == mid[i];
                    assert(s[k] == mid[i] && s[s.len() - 1] == s.last());
                }
            } else {
                assert(r[j] == mid[j] && r[i] == mid[i]);
            }
        }
        assert forall|i: int| 0 <= i < r.len() implies (#[trigger] r[i] == x || s.contains(r[i])) by {
            if i < mid.len() {
                assert(r[i] == mid[i]);
                if mid[i] != x {
                    let k = choose|k: int| 0 <= k < init.len() && init[k] == mid[i];
                    assert(s[k] == r[i]);
                }
            } else {
                assert(s[s.len() - 1] == r[i]);
            }
        }
        assert(init.to_multiset().insert(x).insert(s.last()) =~= init.to_multiset().insert(
            s.last(),
        ).insert(x));
    } else {
        assert forall|i: int, j: int| 0 <= i < j < r.len() implies !text::precedes(
            key(#[trigger] r[j]),
            key(#[trigger] r[i]),
        ) by {
            if j == s.len() {
                if i < s.len() - 1 && text::precedes(key(x), key(s[i])) {
                    let last = s.last();
                    text::lemma_precedes_total(key(x), key(last));
                    text::lemma_precedes_total(key(s[i]), key(last));
                    assert(!text::precedes(key(s[s.len() - 1]), key(s[i])));
                    if key(s[i]) != key(last) {
                        text::lemma_precedes_trans(key(x), key(s[i]), key(last));
                    }
                }
            } else {
                assert(r[j] == s[j] && r[i] == s[i]);
            }
        }
        assert forall|i: int| 0 <= i < r.len() implies (#[trigger] r[i] == x || s.contains(r[i])) by {
            if i < s.len() {
                assert(s[i] == r[i]);
            }
        }
    }
}

/// Sorting puts the elements in the order of their names and neither loses nor adds
/// one.
pub proof fn law_sorted_is_an_ordered_rearrangement<V>(s: Seq<V>, key: spec_fn(V) -> Seq<char>)
    ensures
        in_order(sorted_by(s, key), key),
        sorted_by(s, key).to_multiset() == s.to_multiset(),
        sorted_by(s, key).len() == s.len(),
    decreases s.len(),
{
    broadcast use vstd::seq_lib::to_multiset_build;
    broadcast use vstd::seq_lib::to_multiset_len;

    if s.len() > 0 {
        law_sorted_is_an_ordered_rearrangement(s.drop_last(), key);
        lemma_insert_keeps_order(sorted_by(s.drop_last(), key), s.last(), key);
        assert(s =~= s.drop_last().push(s.last()));
    } else {
        assert(s =~= Seq::<V>::empty());
    }
    assert(sorted_by(s, key).to_multiset() == s.to_multiset());
    assert(sorted_by(s, key).len() == sorted_by(s, key).to_multiset().len());
    assert(s.len() == s.to_multiset().len());
}

/// No two elements have the same name.
pub open spec fn all_differ<V>(s: Seq<V>, key: spec_fn(V) -> Seq<char>) -> bool {
    forall|i: int, j: int|
        0 <= i < j < s.len() ==> key(#[trigger] s[i]) != key(#[trigger] s[j])
}

proof fn lemma_insert_keeps_differing<V>(s: Seq<V>, x: V, key: spec_fn(V) -> Seq<char>)
    requires
        all_differ(s, key),
        forall|i: int| 0 <= i < s.len() ==> key(#[trigger] s[i]) != key(x),
    ensures
        all_differ(insert_by(s, x, key), key),
        forall|i: int|
            0 <= i < insert_by(s, x, key).len() ==> (#[trigger] insert_by(s, x, key)[i] == x
                || s.contains(insert_by(s, x, key)[i])),
    decreases s.len(),
{
    let r = insert_by(s, x, key);
    if s.len() > 0 && text::precedes(key(x), key(s.last())) {
        let init = s.drop_last();
        assert forall|i: int, j: int| 0 <= i < j < init.len() implies key(#[trigger] init[i]) != key(
            #[trigger] init[j],
        ) by {
            assert(init[i] == s[i] && init[j] == s[j]);
        }
        assert forall|i: int| 0 <= i < init.len() implies key(#[trigger] init[i]) != key(x) by {
            assert(init[i] == s[i]);
        }
        lemma_insert_keeps_differing(init, x, key);
        let mid = insert_by(init, x, key);
        assert forall|i: int| 0 <= i < r.len() implies (#[trigger] r[i] == x || s.contains(r[i])) by {
            if i < mid.len() {
                assert(r[i] == mid[i]);
                if mid[i] != x {
                    let k = choose|k: int| 0 <= k < init.len() && init[k] == mid[i];
                    assert(s[k] == r[i]);
                }
            } else {
                assert(s[s.len() - 1] == r[i]);
            }
        }
        assert forall|i: int, j: int| 0 <= i < j < r.len() implies key(#[trigger] r[i]) != key(
            #[trigger] r[j],
        ) by {
            assert(r[i] == mid[i]);
            if j < mid.len() {
                assert(r[j] == mid[j]);
            } else {
                assert(s[s.len() - 1] == r[j]);
                if mid[i] != x {
                    let k = choose|k: int| 0 <= k < init.len() && init[k] == mid[i];
                    assert(s[k] == r[i]);
                }
            }
        }
    } else {
        assert forall|i: int| 0 <= i < r.len() implies (#[trigger] r[i] == x || s.contains(r[i])) by {
            if i < s.len() {
                assert(s[i] == r[i]);
            }
        }
        assert forall|i: int, j: int| 0 <= i < j < r.len() implies key(#[trigger] r[i]) != key(
            #[trigger] r[j],
        ) by {
            assert(r[i] == s[i]);
            if j < s.len() {
                assert(r[j] == s[j]);
            }
        }
    }
}

/// Elements of different names come out strictly rising.
pub proof fn law_different_names_rise_strictly<V>(s: Seq<V>, key: spec_fn(V) -> Seq<char>)
    requires
        all_differ(s, key),
    ensures
        forall|i: int, j: int|
            0 <= i < j < sorted_by(s, key).len() ==> text::precedes(
                key(#[trigger] sorted_by(s, key)[i]),
                key(#[trigger] sorted_by(s, key)[j]),
            ),
{
    lemma_sorted_keeps_differing(s, key);
    law_sorted_is_an_ordered_rearrangement(s, key);
    let r = sorted_by(s, key);
    assert forall|i: int, j: int| 0 <= i < j < r.len() implies text::precedes(
        key(#[trigger] r[i]),
        key(#[trigger] r[j]),
    ) by {
        text::lemma_precedes_total(key(r[i]), key(r[j]));
    }
}

proof fn lemma_sorted_keeps_differing<V>(s: Seq<V>, key: spec_fn(V) -> Seq<char>)
    requires
        all_differ(s, key),
    ensures
        all_differ(sorted_by(s, key), key),
        forall|i: int|
            0 <= i < sorted_by(s, key).len() ==> s.contains(#[trigger] sorted_by(s, key)[i]),
    decreases s.len(),
{
    if s.len() > 0 {
        let init = s.drop_last();
        assert forall|i: int, j: int| 0 <= i < j < init.len() implies key(#[trigger] init[i]) != key(
            #[trigger] init[j],
        ) by {
            assert(init[i] == s[i] && init[j] == s[j]);
        }
        lemma_sorted_keeps_differing(init, key);
        let mid = sorted_by(init, key);
        assert forall|i: int| 0 <= i < mid.len() implies key(#[trigger] mid[i]) != key(s.last()) by {
            let k = choose|k: int| 0 <= k < init.len() && init[k] == mid[i];
            assert(s[k] == mid[i] && s[s.len() - 1] == s.last());
        }
        lemma_insert_keeps_differing(mid, s.last(), key);
        let r = sorted_by(s, key);
        assert forall|i: int| 0 <= i < r.len() implies s.contains(#[trigger] r[i]) by {
            if r[i] == s.last() {
                assert(s[s.len() - 1] == r[i]);
            } else {
                let k = choose|k: int| 0 <= k < mid.len() && mid[k] == r[i];
                let h = choose|h: int| 0 <= h < init.len() && init[h] == mid[k];
                assert(s[h] == r[i]);
            }
        }
    }
}

/// Puts `x` into a list behind every element that it does not precede.
pub fn insert_named<T: Named>(list: &mut Vec<T>, x: T)
    ensures
        final(list).deep_view() == insert_by(old(list).deep_view(), x.deep_view(), by_name::<T>()),
{
    let ghost before = list.deep_view();
    let ghost key = by_name::<T>();
    let mut n: usize = list.len();
    while n > 0 && text::less(x.name(), list[n - 1].name())
        invariant
            n <= list.len(),
            list.deep_view() == before,
            key == by_name::<T>(),
            forall|j: int|
                n <= j < before.len() ==> text::precedes(
                    key(x.deep_view()),
                    key(#[trigger] before[j]),
                ),
        decreases n,
    {
        assert(before[n - 1] == list@[n - 1].deep_view());
        n -= 1;
    }
    proof {
        if n > 0 {
            assert(before[n - 1] == list@[n - 1].deep_view());
        }
        lemma_insert_at(before, x.deep_view(), key, n as int);
    }
    let ghost v = x.deep_view();
    list.insert(n, x);
    assert(list.deep_view() =~= before.insert(n as int, v));
}

/// The list in the order of its elements' names.
pub fn sort_named<T: Named>(list: Vec<T>) -> (r: Vec<T>)
    ensures
        r.deep_view() == sorted_by(list.deep_view(), by_name::<T>()),
{
    let ghost all = list.deep_view();
    let ghost mut done: int = 0;
    let mut rest: Vec<T> = list;
    let mut out: Vec<T> = Vec::new();
    assert(all.skip(0) =~= all);
    assert(out.deep_view() =~= sorted_by(all.take(0), by_name::<T>()));
    while rest.len() > 0
        invariant
            0 <= done <= all.len(),
            rest.deep_view() == all.skip(done),
            out.deep_view() == sorted_by(all.take(done), by_name::<T>()),
        decreases rest.len(),
    {
        let ghost prev = rest.deep_view();
        assert(prev.len() == rest.len());
        let first = rest.remove(0);
        assert(rest.deep_view() =~= prev.drop_first());
        assert(prev[0] == all[done]);
        assert(first.deep_view() == prev[0]);
        assert(all.take(done + 1).drop_last() =~= all.take(done));
        insert_named(&mut out, first);
        proof {
            done = done + 1;
            assert(prev.drop_first() =~= all.skip(done));
        }
    }
    proof {
        assert(rest.deep_view().len() == 0);
        assert(all.take(done) =~= all);
    }
    out
}

} // verus!
