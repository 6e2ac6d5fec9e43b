//! `clove status`, `start` and `close`.

use vstd::prelude::*;

use crate::output::{Out, OutView};
use crate::text;

verus! {

/// An item as the dependency check sees it.
#[derive(Debug, PartialEq, Eq)]
pub struct Linked {
    pub id: String,
    pub closed: bool,
    pub deps: Vec<String>,
}

/// The model of a [`Linked`].
pub struct LinkedView {
    pub id: Seq<char>,
    pub closed: bool,
    pub deps: Seq<Seq<char>>,
}

impl DeepView for Linked {
    type V = LinkedView;

    open spec fn deep_view(&self) -> LinkedView {
        LinkedView { id: self.id@, closed: self.closed, deps: self.deps.deep_view() }
    }
}

/// The items that are not closed and depend on `id`.
pub open spec fn waiting_for(items: Seq<LinkedView>, id: Seq<char>) -> Seq<Seq<char>>
    decreases items.len(),
{
    if items.len() == 0 {
        Seq::empty()
    } else {
        let rest = waiting_for(items.drop_last(), id);
        let i = items.last();
        if !i.closed && i.deps.contains(id) {
            rest.push(i.id)
        } else {
            rest
        }
    }
}

/// The ids of the items that are not closed and depend on `id`.
pub fn dependents_of(items: &Vec<Linked>, id: &str) -> (r: Vec<String>)
    ensures
        r.deep_view() == waiting_for(items.deep_view(), id@),
{
    let ghost all = items.deep_view();
    let mut out: Vec<String> = Vec::new();
    let mut i: usize = 0;
    assert(out.deep_view() =~= waiting_for(all.take(0), id@));
    while i < items.len()
        invariant
            i <= items.len(),
            all == items.deep_view(),
            out.deep_view() == waiting_for(all.take(i as int), id@),
        decreases items.len() - i,
    {
        let ghost prev = out.deep_view();
        assert(all.take(i + 1).drop_last() =~= all.take(i as int));
        assert(all[i as int] == items@[i as int].deep_view());
        if !items[i].closed && crate::registry::install::list_has(&items[i].deps, id) {
            out.push(items[i].id.clone());
            assert(out.deep_view() =~= prev.push(items@[i as int].id@));
        }
        i += 1;
    }
    assert(all.take(i as int) =~= all);
    out
}

/// What is printed on stderr when an item is closed that others wait for. Closing it is
/// allowed; the user is warned unless quiet was asked for.
pub open spec fn close_note(
    closing: bool,
    quiet: bool,
    id: Seq<char>,
    waiting: Seq<Seq<char>>,
) -> Seq<OutView> {
    if closing && !quiet && waiting.len() > 0 {
        seq![
            OutView::Note(
                "warning: "@ + id + " still has open dependents: "@ + text::joined(waiting, ", "@),
            ),
        ]
    } else {
        Seq::empty()
    }
}

/// The warning about closing an item that others wait for.
pub fn warn_on_close(closing: bool, quiet: bool, id: &str, items: &Vec<Linked>) -> (r: Vec<Out>)
    ensures
        r.deep_view() == close_note(closing, quiet, id@, waiting_for(items.deep_view(), id@)),
{
    let mut out: Vec<Out> = Vec::new();
    assert(out.deep_view() =~= Seq::<OutView>::empty());
    if closing && !quiet {
        let waiting = dependents_of(items, id);
        assert(waiting.deep_view().len() == waiting.len());
        if waiting.len() > 0 {
            let list = text::join(&waiting, ", ");
            out.push(
                Out::Note(
                    text::cat4("warning: ", id, " still has open dependents: ", list.as_str()),
                ),
            );
            assert(out.deep_view() =~= close_note(closing, quiet, id@, waiting.deep_view()));
        }
    }
    out
}

/// An item still waits for another if, and only if, it is not closed and depends on it.
pub proof fn law_open_dependents_wait(items: Seq<LinkedView>, id: Seq<char>, who: Seq<char>)
    ensures
        waiting_for(items, id).contains(who) <==> exists|k: int|
            0 <= k < items.len() && (#[trigger] items[k]).id == who && !items[k].closed
                && items[k].deps.contains(id),
    decreases items.len(),
{
    if items.len() > 0 {
        let init = items.drop_last();
        law_open_dependents_wait(init, id, who);
        let rest = waiting_for(init, id);
        let all = waiting_for(items, id);
        if all.contains(who) {
            let k = choose|k: int| 0 <= k < all.len() && all[k] == who;
            if k < rest.len() {
                assert(rest[k] == who);
                let j = choose|j: int|
                    0 <= j < init.len() && (#[trigger] init[j]).id == who && !init[j].closed
                        && init[j].deps.contains(id);
                assert(items[j] == init[j]);
            } else {
                assert(items[items.len() - 1].id == who);
            }
        }
        if exists|k: int|
            0 <= k < items.len() && (#[trigger] items[k]).id == who && !items[k].closed
                && items[k].deps.contains(id) {
            let k = choose|k: int|
                0 <= k < items.len() && (#[trigger] items[k]).id == who && !items[k].closed
                    && items[k].deps.contains(id);
            if k < init.len() {
                assert(init[k] == items[k]);
                let j = choose|j: int| 0 <= j < rest.len() && rest[j] == who;
                assert(all[j] == who);
            } else {
                assert(all[rest.len() as int] == who);
            }
        }
    }
}

/// Closing an item that others wait for says so, naming it and each of them; nothing is said
/// when it is not closed, when nobody waits, or when quiet was asked for.
pub proof fn law_closing_names_who_waits(
    closing: bool,
    quiet: bool,
    id: Seq<char>,
    waiting: Seq<Seq<char>>,
    k: int,
)
    ensures
        close_note(closing, quiet, id, waiting).len() > 0 <==> closing && !quiet && waiting.len()
            > 0,
        0 <= k < waiting.len() && closing && !quiet ==> (close_note(closing, quiet, id, waiting)[0]
            matches OutView::Note(s) && text::occurs(s, id) && text::occurs(s, waiting[k])),
{
    broadcast use text::group_occurs;

    if 0 <= k < waiting.len() && closing && !quiet {
        text::law_joined_parts_occur(waiting, ", "@, k);
        let front = "warning: "@ + id + " still has open dependents: "@;
        text::lemma_occurs_between("warning: "@, id, " still has open dependents: "@);
        text::lemma_occurs_in_front(front, text::joined(waiting, ", "@), id);
        text::lemma_occurs_in_back(front, text::joined(waiting, ", "@), waiting[k]);
    }
}

} // verus!
