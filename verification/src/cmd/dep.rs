//! `clove dep tree` and `clove dep cycle`: what they print.

use vstd::prelude::*;

use crate::exit::ExitCode;
use crate::json::{
    law_distinct_pairs_are_members, num, number, obj, object, string, strings, texts, Json,
    JsonView,
};
use crate::output::{
    law_a_success_carries_its_data, meta_without_warnings, pairs, success, success_envelope,
    warnings_meta, Out, OutView, OutputFormat,
};
use crate::text;

verus! {

/// A node of a dependency tree.
#[derive(Debug, PartialEq, Eq)]
pub struct DepTreeNode {
    pub id: String,
    pub title: String,
    pub status: String,
    pub ready: bool,
    /// Is this an item that stands further up already?
    pub cycle_ref: bool,
    pub children: Vec<DepTreeNode>,
}

/// The model of a [`DepTreeNode`].
pub struct TreeView {
    pub id: Seq<char>,
    pub title: Seq<char>,
    pub status: Seq<char>,
    pub ready: bool,
    pub cycle_ref: bool,
    pub children: Seq<TreeView>,
}

impl DepTreeNode {
    /// The tree as plain mathematical data.
    pub open spec fn shape(self) -> TreeView
        decreases self,
    {
        TreeView {
            id: self.id@,
            title: self.title@,
            status: self.status@,
            ready: self.ready,
            cycle_ref: self.cycle_ref,
            children: Seq::new(
                self.children@.len(),
                |i: int|
                    if 0 <= i < self.children@.len() {
                        self.children@[i].shape()
                    } else {
                        arbitrary()
                    },
            ),
        }
    }
}

impl DeepView for DepTreeNode {
    type V = TreeView;

    open spec fn deep_view(&self) -> TreeView {
        self.shape()
    }
}

proof fn lemma_children(node: DepTreeNode)
    ensures
        node.shape().children == node.children.deep_view(),
{
    assert(node.shape().children =~= node.children.deep_view());
}

// ---- Nested -------------------------------------------------------------------

/// The object of a node, with those of its children inside.
pub open spec fn nested(t: TreeView) -> JsonView
    decreases t, 0nat,
{
    obj(
        seq![
            ("id"@, JsonView::Text(t.id)),
            ("title"@, JsonView::Text(t.title)),
            ("status"@, JsonView::Text(t.status)),
            ("ready"@, JsonView::Bool(t.ready)),
            ("cycle_ref"@, JsonView::Bool(t.cycle_ref)),
            ("children"@, JsonView::Array(nested_first(t.children, t.children.len()))),
        ],
    )
}

/// The objects of the first `n` of some trees.
pub open spec fn nested_first(ts: Seq<TreeView>, n: nat) -> Seq<JsonView>
    decreases ts, n,
{
    if n == 0 || n > ts.len() {
        Seq::empty()
    } else {
        nested_first(ts, (n - 1) as nat).push(nested(ts[n - 1]))
    }
}

/// The nested JSON of a tree.
pub fn tree_to_json(node: &DepTreeNode) -> (r: Json)
    ensures
        r.shape() == nested(node.shape()),
    decreases node,
{
    let ghost t = node.shape();
    proof {
        lemma_children(*node);
    }
    let mut inner: Vec<Json> = Vec::new();
    let mut i: usize = 0;
    assert(inner.deep_view() =~= nested_first(t.children, 0));
    while i < node.children.len()
        invariant
            i <= node.children.len(),
            t == node.shape(),
            t.children == node.children.deep_view(),
            inner.deep_view() == nested_first(t.children, i as nat),
        decreases node.children.len() - i,
    {
        assert(t.children[i as int] == node.children@[i as int].shape());
        assert(decreases_to!(*node => node.children));
        assert(decreases_to!(node.children => node.children[i as int]));
        let ghost prev = inner.deep_view();
        let child = tree_to_json(&node.children[i]);
        inner.push(child);
        assert(inner.deep_view() =~= prev.push(nested(t.children[i as int])));
        i += 1;
    }
    proof {
        crate::json::lemma_array_shape(inner);
    }
    let ghost array = Json::Array(inner).shape();
    let v: Vec<(String, Json)> = vec![
        ("id".to_owned(), string(node.id.as_str())),
        ("title".to_owned(), string(node.title.as_str())),
        ("status".to_owned(), string(node.status.as_str())),
        ("ready".to_owned(), Json::Bool(node.ready)),
        ("cycle_ref".to_owned(), Json::Bool(node.cycle_ref)),
        ("children".to_owned(), Json::Array(inner)),
    ];
    assert(pairs(v@) =~= seq![
        ("id"@, JsonView::Text(t.id)),
        ("title"@, JsonView::Text(t.title)),
        ("status"@, JsonView::Text(t.status)),
        ("ready"@, JsonView::Bool(t.ready)),
        ("cycle_ref"@, JsonView::Bool(t.cycle_ref)),
        ("children"@, array),
    ]);
    object(v)
}

// ---- Flat ---------------------------------------------------------------------

/// The object of a node at a depth, without its children.
pub open spec fn flat_entry(t: TreeView, depth: int) -> JsonView {
    obj(
        seq![
            ("id"@, JsonView::Text(t.id)),
            ("title"@, JsonView::Text(t.title)),
            ("status"@, JsonView::Text(t.status)),
            ("ready"@, JsonView::Bool(t.ready)),
            ("cycle_ref"@, JsonView::Bool(t.cycle_ref)),
            ("depth"@, num(depth)),
        ],
    )
}

/// A tree from the root down, each node in front of its children.
pub open spec fn flat(t: TreeView, depth: int) -> Seq<JsonView>
    decreases t, 0nat,
{
    seq![flat_entry(t, depth)] + flat_first(t.children, t.children.len(), depth + 1)
}

/// The first `n` of some trees, one behind the other.
pub open spec fn flat_first(ts: Seq<TreeView>, n: nat, depth: int) -> Seq<JsonView>
    decreases ts, n,
{
    if n == 0 || n > ts.len() {
        Seq::empty()
    } else {
        flat_first(ts, (n - 1) as nat, depth) + flat(ts[n - 1], depth)
    }
}

/// How many levels a tree has.
pub open spec fn height(t: TreeView) -> nat
    decreases t, 0nat,
{
    1 + tallest(t.children, t.children.len())
}

/// How many levels the tallest of the first `n` trees has.
pub open spec fn tallest(ts: Seq<TreeView>, n: nat) -> nat
    decreases ts, n,
{
    if n == 0 || n > ts.len() {
        0
    } else {
        let h = height(ts[n - 1]);
        let rest = tallest(ts, (n - 1) as nat);
        if h > rest {
            h
        } else {
            rest
        }
    }
}

proof fn lemma_tallest(ts: Seq<TreeView>, n: nat, i: int)
    requires
        0 <= i < n <= ts.len(),
    ensures
        height(ts[i]) <= tallest(ts, n),
    decreases n,
{
    if i < n - 1 {
        lemma_tallest(ts, (n - 1) as nat, i);
    }
}

/// Puts the nodes of a tree behind `out`, each with its depth.
pub fn flatten(node: &DepTreeNode, depth: usize, out: &mut Vec<Json>)
    requires
        depth + height(node.shape()) <= usize::MAX,
    ensures
        final(out).deep_view() == old(out).deep_view() + flat(node.shape(), depth as int),
    decreases node,
{
    let ghost t = node.shape();
    let ghost start = out.deep_view();
    proof {
        lemma_children(*node);
    }
    let v: Vec<(String, Json)> = vec![
        ("id".to_owned(), string(node.id.as_str())),
        ("title".to_owned(), string(node.title.as_str())),
        ("status".to_owned(), string(node.status.as_str())),
        ("ready".to_owned(), Json::Bool(node.ready)),
        ("cycle_ref".to_owned(), Json::Bool(node.cycle_ref)),
        ("depth".to_owned(), number(depth as u64)),
    ];
    assert(pairs(v@) =~= seq![
        ("id"@, JsonView::Text(t.id)),
        ("title"@, JsonView::Text(t.title)),
        ("status"@, JsonView::Text(t.status)),
        ("ready"@, JsonView::Bool(t.ready)),
        ("cycle_ref"@, JsonView::Bool(t.cycle_ref)),
        ("depth"@, num(depth as int)),
    ]);
    let entry = object(v);
    out.push(entry);
    assert(out.deep_view() =~= start + seq![flat_entry(t, depth as int)]);
    let ghost head = out.deep_view();
    let mut i: usize = 0;
    assert(head + flat_first(t.children, 0, depth + 1) =~= head);
    while i < node.children.len()
        invariant
            i <= node.children.len(),
            t == node.shape(),
            t.children == node.children.deep_view(),
            depth + height(t) <= usize::MAX,
            out.deep_view() == head + flat_first(t.children, i as nat, depth + 1),
        decreases node.children.len() - i,
    {
        assert(t.children[i as int] == node.children@[i as int].shape());
        assert(decreases_to!(*node => node.children));
        assert(decreases_to!(node.children => node.children[i as int]));
        proof {
            lemma_tallest(t.children, t.children.len(), i as int);
        }
        let ghost prev = out.deep_view();
        flatten(&node.children[i], depth + 1, out);
        assert(out.deep_view() =~= head + flat_first(t.children, (i + 1) as nat, depth + 1));
        i += 1;
    }
    assert(out.deep_view() =~= start + flat(t, depth as int));
}

/// The depth of the tree that is asked for.
pub open spec fn depth_asked(depth: Option<usize>, full: bool) -> usize {
    if full || depth == Some(0usize) {
        usize::MAX
    } else if depth is Some {
        depth->0
    } else {
        5
    }
}

/// The depth of the tree that is asked for: 5 unless one is given, and no limit — the
/// greatest number — with `--full` or a depth of 0.
pub fn depth_of(depth: Option<usize>, full: bool) -> (r: usize)
    ensures
        r == depth_asked(depth, full),
{
    if full {
        return usize::MAX;
    }
    match depth {
        Some(n) => if n == 0 {
            usize::MAX
        } else {
            n
        },
        None => 5,
    }
}

/// What is printed of a tree in a JSON format.
pub fn emit_tree(root: &DepTreeNode, as_list: bool) -> (r: Vec<Out>)
    requires
        height(root.shape()) <= usize::MAX,
    ensures
        r.deep_view() == seq![
            OutView::Json(
                success(
                    if as_list {
                        JsonView::Array(flat(root.shape(), 0))
                    } else {
                        nested(root.shape())
                    },
                    warnings_meta(Seq::empty()),
                ),
            ),
        ],
{
    let data: Json = if as_list {
        let mut all: Vec<Json> = Vec::new();
        let ghost start = all.deep_view();
        flatten(root, 0, &mut all);
        proof {
            assert(start =~= Seq::<JsonView>::empty());
            assert(start + flat(root.shape(), 0) =~= flat(root.shape(), 0));
            crate::json::lemma_array_shape(all);
        }
        Json::Array(all)
    } else {
        tree_to_json(root)
    };
    let line = Out::Json(success_envelope(data, meta_without_warnings()));
    let ghost view = line.deep_view();
    let out: Vec<Out> = vec![line];
    assert(out.deep_view() =~= seq![view]);
    out
}

// ---- Cycles -------------------------------------------------------------------

/// What is printed of the cycles.
pub open spec fn cycle_output(format: OutputFormat, cycles: Seq<Seq<Seq<char>>>) -> Seq<OutView> {
    if format == OutputFormat::Human {
        if cycles.len() == 0 {
            seq![OutView::Text("no cycles"@)]
        } else {
            Seq::new(cycles.len(), |i: int| OutView::Text(text::joined(cycles[i], " → "@)))
        }
    } else {
        seq![
            OutView::Json(
                success(
                    JsonView::Array(Seq::new(cycles.len(), |i: int| texts(cycles[i]))),
                    obj(
                        seq![
                            ("warnings"@, texts(Seq::empty())),
                            ("count"@, num(cycles.len() as int)),
                        ],
                    ),
                ),
            ),
        ]
    }
}

/// Renders the cycles. With `--fail-on-cycle` a cycle decides the exit code.
pub fn emit_cycles(format: OutputFormat, cycles: &Vec<Vec<String>>, fail_on_cycle: bool) -> (r: (
    Vec<Out>,
    ExitCode,
))
    ensures
        r.0.deep_view() == cycle_output(format, cycles.deep_view()),
        r.1 == (if fail_on_cycle && cycles.len() > 0 {
            ExitCode::Cycle
        } else {
            ExitCode::Success
        }),
{
    let ghost all = cycles.deep_view();
    let mut out: Vec<Out> = Vec::new();
    match format {
        OutputFormat::Human => {
            if cycles.len() == 0 {
                out.push(Out::Text("no cycles".to_owned()));
                assert(out.deep_view() =~= cycle_output(format, all));
            } else {
                let mut i: usize = 0;
                while i < cycles.len()
                    invariant
                        i <= cycles.len(),
                        all == cycles.deep_view(),
                        out.len() == i,
                        forall|j: int|
                            0 <= j < i ==> (#[trigger] out@[j]).deep_view() == OutView::Text(
                                text::joined(all[j], " → "@),
                            ),
                    decreases cycles.len() - i,
                {
                    assert(all[i as int] == cycles@[i as int].deep_view());
                    out.push(Out::Text(text::join(&cycles[i], " → ")));
                    i += 1;
                }
                assert(out.deep_view() =~= cycle_output(format, all));
            }
        },
        _ => {
            let mut items: Vec<Json> = Vec::new();
            let mut i: usize = 0;
            while i < cycles.len()
                invariant
                    i <= cycles.len(),
                    all == cycles.deep_view(),
                    items.len() == i,
                    forall|j: int| 0 <= j < i ==> (#[trigger] items@[j]).shape() == texts(all[j]),
                decreases cycles.len() - i,
            {
                assert(all[i as int] == cycles@[i as int].deep_view());
                items.push(strings(&cycles[i]));
                i += 1;
            }
            proof {
                crate::json::lemma_array_shape(items);
                assert(items.deep_view() =~= Seq::new(all.len(), |i: int| texts(all[i])));
            }
            let none: Vec<String> = Vec::new();
            assert(none.deep_view() =~= Seq::<Seq<char>>::empty());
            let m: Vec<(String, Json)> = vec![
                ("warnings".to_owned(), strings(&none)),
                ("count".to_owned(), number(cycles.len() as u64)),
            ];
            assert(pairs(m@) =~= seq![
                ("warnings"@, texts(Seq::empty())),
                ("count"@, num(all.len() as int)),
            ]);
            out.push(Out::Json(success_envelope(Json::Array(items), object(m))));
            assert(out.deep_view() =~= cycle_output(format, all));
        },
    }
    let exit = if fail_on_cycle && cycles.len() > 0 {
        ExitCode::Cycle
    } else {
        ExitCode::Success
    };
    (out, exit)
}

// ---- What a tree shows ----------------------------------------------------------

proof fn lemma_nested_first(ts: Seq<TreeView>, n: nat)
    requires
        n <= ts.len(),
    ensures
        nested_first(ts, n).len() == n,
        forall|i: int| 0 <= i < n ==> #[trigger] nested_first(ts, n)[i] == nested(ts[i]),
    decreases n,
{
    if n > 0 {
        lemma_nested_first(ts, (n - 1) as nat);
        assert forall|i: int| 0 <= i < n implies #[trigger] nested_first(ts, n)[i] == nested(
            ts[i],
        ) by {
            if i < n - 1 {
                assert(nested_first(ts, n)[i] == nested_first(ts, (n - 1) as nat)[i]);
            }
        }
    }
}

/// The nested object of a node shows what the node says of itself, and under `children` as
/// many objects as it has children, each that of the child at its place.
pub proof fn law_a_nested_node_shows_all_its_children(t: TreeView)
    ensures
        nested(t).member("id"@) == Some(JsonView::Text(t.id)),
        nested(t).member("title"@) == Some(JsonView::Text(t.title)),
        nested(t).member("status"@) == Some(JsonView::Text(t.status)),
        nested(t).member("ready"@) == Some(JsonView::Bool(t.ready)),
        nested(t).member("cycle_ref"@) == Some(JsonView::Bool(t.cycle_ref)),
        nested(t).member("children"@) matches Some(JsonView::Array(inner)) && inner.len()
            == t.children.len() && forall|i: int|
            0 <= i < inner.len() ==> #[trigger] inner[i] == nested(t.children[i]),
{
    reveal_strlit("id");
    reveal_strlit("title");
    reveal_strlit("status");
    reveal_strlit("ready");
    reveal_strlit("cycle_ref");
    reveal_strlit("children");
    let p = seq![
        ("id"@, JsonView::Text(t.id)),
        ("title"@, JsonView::Text(t.title)),
        ("status"@, JsonView::Text(t.status)),
        ("ready"@, JsonView::Bool(t.ready)),
        ("cycle_ref"@, JsonView::Bool(t.cycle_ref)),
        ("children"@, JsonView::Array(nested_first(t.children, t.children.len()))),
    ];
    assert(nested(t) == obj(p));
    assert(p[0].0 == "id"@ && p[1].0 == "title"@ && p[2].0 == "status"@ && p[3].0 == "ready"@ && p[4].0 == "cycle_ref"@ && p[5].0 == "children"@);
    assert("title"@[0] != "ready"@[0]);
    assert forall|i: int, j: int| 0 <= i < j < p.len() implies (#[trigger] p[i]).0 != (
    #[trigger] p[j]).0 by {
        assert(i == 0 || i == 1 || i == 2 || i == 3 || i == 4);
        assert(j == 1 || j == 2 || j == 3 || j == 4 || j == 5);
    }
    law_distinct_pairs_are_members(p);
    lemma_nested_first(t.children, t.children.len());
}

/// The flat object of a node shows what the node says of itself, and how deep it stands.
pub proof fn law_a_flat_node_shows_its_depth(t: TreeView, depth: int)
    ensures
        flat_entry(t, depth).member("id"@) == Some(JsonView::Text(t.id)),
        flat_entry(t, depth).member("title"@) == Some(JsonView::Text(t.title)),
        flat_entry(t, depth).member("status"@) == Some(JsonView::Text(t.status)),
        flat_entry(t, depth).member("ready"@) == Some(JsonView::Bool(t.ready)),
        flat_entry(t, depth).member("cycle_ref"@) == Some(JsonView::Bool(t.cycle_ref)),
        flat_entry(t, depth).member("depth"@) == Some(num(depth)),
{
    reveal_strlit("id");
    reveal_strlit("title");
    reveal_strlit("status");
    reveal_strlit("ready");
    reveal_strlit("cycle_ref");
    reveal_strlit("depth");
    let p = seq![
        ("id"@, JsonView::Text(t.id)),
        ("title"@, JsonView::Text(t.title)),
        ("status"@, JsonView::Text(t.status)),
        ("ready"@, JsonView::Bool(t.ready)),
        ("cycle_ref"@, JsonView::Bool(t.cycle_ref)),
        ("depth"@, num(depth)),
    ];
    assert(flat_entry(t, depth) == obj(p));
    assert(p[0].0 == "id"@ && p[1].0 == "title"@ && p[2].0 == "status"@ && p[3].0 == "ready"@ && p[4].0 == "cycle_ref"@ && p[5].0 == "depth"@);
    assert("title"@[0] != "ready"@[0]);
    assert("title"@[0] != "depth"@[0]);
    assert("ready"@[0] != "depth"@[0]);
    assert forall|i: int, j: int| 0 <= i < j < p.len() implies (#[trigger] p[i]).0 != (
    #[trigger] p[j]).0 by {
        assert(i == 0 || i == 1 || i == 2 || i == 3 || i == 4);
        assert(j == 1 || j == 2 || j == 3 || j == 4 || j == 5);
    }
    law_distinct_pairs_are_members(p);
}

/// How many nodes a tree has.
pub open spec fn size(t: TreeView) -> nat
    decreases t, 0nat,
{
    1 + size_first(t.children, t.children.len())
}

/// How many nodes the first `n` of some trees have.
pub open spec fn size_first(ts: Seq<TreeView>, n: nat) -> nat
    decreases ts, n,
{
    if n == 0 || n > ts.len() {
        0
    } else {
        size_first(ts, (n - 1) as nat) + size(ts[n - 1])
    }
}

/// What the objects of a nested tree say under `id`, each in front of those of its children,
/// down to a number of levels.
pub open spec fn ids_within(v: JsonView, levels: nat) -> Seq<Option<JsonView>>
    decreases levels, 1nat, 0nat,
{
    seq![v.member("id"@)] + (match v.member("children"@) {
        Some(JsonView::Array(inner)) => ids_within_first(inner, inner.len(), levels),
        _ => Seq::empty(),
    })
}

/// The same of the first `n` of some objects.
pub open spec fn ids_within_first(vs: Seq<JsonView>, n: nat, levels: nat) -> Seq<Option<JsonView>>
    decreases levels, 0nat, n,
{
    if n == 0 || n > vs.len() || levels == 0 {
        Seq::empty()
    } else {
        ids_within_first(vs, (n - 1) as nat, levels) + ids_within(vs[n - 1], (levels - 1) as nat)
    }
}

/// What the entries of a list say under `id`.
pub open spec fn ids_listed(vs: Seq<JsonView>) -> Seq<Option<JsonView>> {
    Seq::new(vs.len(), |i: int| vs[i].member("id"@))
}

/// The nested and the flat form of a tree hold the same ids in the same order, one for each
/// of its nodes.
pub proof fn law_both_forms_of_a_tree_hold_the_same_ids(t: TreeView, depth: int, levels: nat)
    requires
        height(t) <= levels + 1,
    ensures
        ids_within(nested(t), levels) == ids_listed(flat(t, depth)),
        flat(t, depth).len() == size(t),
    decreases t, 1nat,
{
    law_a_nested_node_shows_all_its_children(t);
    law_a_flat_node_shows_its_depth(t, depth);
    lemma_nested_first(t.children, t.children.len());
    let n = t.children.len();
    let inner = nested(t).member("children"@)->0->Array_0;
    assert(inner =~= nested_first(t.children, n));
    lemma_same_ids_first(t, inner, n, depth + 1, levels);
    let head = flat_entry(t, depth);
    let rest = flat_first(t.children, n, depth + 1);
    assert(flat(t, depth) == seq![head] + rest);
    assert(ids_listed(flat(t, depth)) =~= seq![head.member("id"@)] + ids_listed(rest));
}

proof fn lemma_same_ids_first(
    t: TreeView,
    inner: Seq<JsonView>,
    n: nat,
    depth: int,
    levels: nat,
)
    requires
        n <= t.children.len(),
        inner == nested_first(t.children, t.children.len()),
        height(t) <= levels + 1,
    ensures
        ids_within_first(inner, n, levels) == ids_listed(flat_first(t.children, n, depth)),
        flat_first(t.children, n, depth).len() == size_first(t.children, n),
    decreases t, 0nat, n,
{
    if n > 0 {
        lemma_nested_first(t.children, t.children.len());
        lemma_same_ids_first(t, inner, (n - 1) as nat, depth, levels);
        lemma_tallest(t.children, t.children.len(), n - 1);
        assert(decreases_to!(t => t.children));
        assert(decreases_to!(t.children => t.children[n - 1]));
        law_both_forms_of_a_tree_hold_the_same_ids(
            t.children[n - 1],
            depth,
            (levels - 1) as nat,
        );
        let a = flat_first(t.children, (n - 1) as nat, depth);
        let b = flat(t.children[n - 1], depth);
        assert(ids_listed(a + b) =~= ids_listed(a) + ids_listed(b));
    } else {
        assert(ids_within_first(inner, 0, levels) =~= ids_listed(
            flat_first(t.children, 0, depth),
        ));
    }
}

/// A child stands one level deeper than its parent, behind it and behind its elder siblings.
pub proof fn law_children_stand_one_level_deeper(t: TreeView, depth: int, i: int)
    requires
        0 <= i < t.children.len(),
    ensures
        ({
            let at = 1 + size_first(t.children, i as nat);
            let child = t.children[i];
            &&& at + size(child) <= flat(t, depth).len()
            &&& flat(t, depth).subrange(at as int, (at + size(child)) as int) == flat(
                child,
                depth + 1,
            )
        }),
{
    lemma_flat_first_part(t.children, t.children.len(), i, depth + 1);
    let rest = flat_first(t.children, t.children.len(), depth + 1);
    let at = size_first(t.children, i as nat) as int;
    let m = size(t.children[i]) as int;
    assert(flat(t, depth).subrange(at + 1, at + 1 + m) =~= rest.subrange(at, at + m));
}

proof fn lemma_flat_first_part(ts: Seq<TreeView>, n: nat, i: int, depth: int)
    requires
        0 <= i < n <= ts.len(),
    ensures
        flat_first(ts, n, depth).len() == size_first(ts, n),
        size_first(ts, i as nat) + size(ts[i]) <= size_first(ts, n),
        flat_first(ts, n, depth).subrange(
            size_first(ts, i as nat) as int,
            (size_first(ts, i as nat) + size(ts[i])) as int,
        ) == flat(ts[i], depth),
    decreases n,
{
    lemma_flat_size(ts[n - 1], depth);
    lemma_flat_first_size(ts, (n - 1) as nat, depth);
    let before = flat_first(ts, (n - 1) as nat, depth);
    let all = flat_first(ts, n, depth);
    if i < n - 1 {
        lemma_flat_first_part(ts, (n - 1) as nat, i, depth);
        let at = size_first(ts, i as nat) as int;
        let m = size(ts[i]) as int;
        assert(all.subrange(at, at + m) =~= before.subrange(at, at + m));
    } else {
        assert(all.subrange(before.len() as int, all.len() as int) =~= flat(ts[n - 1], depth));
    }
}

proof fn lemma_flat_size(t: TreeView, depth: int)
    ensures
        flat(t, depth).len() == size(t),
{
    law_both_forms_of_a_tree_hold_the_same_ids(t, depth, height(t));
}

proof fn lemma_flat_first_size(ts: Seq<TreeView>, n: nat, depth: int)
    requires
        n <= ts.len(),
    ensures
        flat_first(ts, n, depth).len() == size_first(ts, n),
    decreases n,
{
    if n > 0 {
        lemma_flat_first_size(ts, (n - 1) as nat, depth);
        lemma_flat_size(ts[n - 1], depth);
    }
}

/// Every cycle is shown, at its place and with all its ids in order; the JSON counts them.
pub proof fn law_every_cycle_is_shown(cycles: Seq<Seq<Seq<char>>>, i: int, k: int)
    requires
        0 <= i < cycles.len(),
        0 <= k < cycles[i].len(),
    ensures
        cycle_output(OutputFormat::Human, cycles).len() == cycles.len(),
        cycle_output(OutputFormat::Human, cycles)[i] matches OutView::Text(s) && text::occurs(
            s,
            cycles[i][k],
        ),
        cycle_output(OutputFormat::Json, cycles).len() == 1,
        cycle_output(OutputFormat::Json, cycles)[0] matches OutView::Json(v) && {
            &&& v.member("data"@) matches Some(JsonView::Array(all)) && all.len() == cycles.len()
                && (all[i] matches JsonView::Array(ids) && ids.len() == cycles[i].len() && ids[k]
                == JsonView::Text(cycles[i][k]))
            &&& v.member("_meta"@) matches Some(m) && m.member("count"@) == Some(
                num(cycles.len() as int),
            )
        },
{
    text::law_joined_parts_occur(cycles[i], " → "@, k);
    let data = JsonView::Array(Seq::new(cycles.len(), |i: int| texts(cycles[i])));
    let meta = obj(
        seq![("warnings"@, texts(Seq::empty())), ("count"@, num(cycles.len() as int))],
    );
    law_a_success_carries_its_data(data, meta);
    reveal_strlit("warnings");
    reveal_strlit("count");
    let q = seq![
        ("warnings"@, texts(Seq::empty())),
        ("count"@, num(cycles.len() as int)),
    ];
    assert(meta == obj(q));
    assert(q[0].0 == "warnings"@ && q[1].0 == "count"@);
    law_distinct_pairs_are_members(q);
}

/// A tree is as deep as is asked for; without a limit where all of it is, and five levels deep
/// where nothing is said.
pub proof fn law_a_tree_is_as_deep_as_asked(n: usize, depth: Option<usize>)
    ensures
        n > 0 ==> depth_asked(Some(n), false) == n,
        depth_asked(Some(0usize), false) == usize::MAX,
        depth_asked(depth, true) == usize::MAX,
        depth_asked(None, false) == 5,
{
}

} // verus!
