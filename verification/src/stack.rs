//! The stacking resolver: rebuilds the back-to-front paint/hit-test order
//! (the UI stack) from scratch each frame. Every node scopes its children:
//! siblings are ordered by `z_index` ascending with ties broken by tree
//! order, and a subtree is painted as one contiguous block directly after
//! its parent, so a descendant's `z_index` never competes with nodes
//! outside its parent. Nodes with `display: none` are excluded together
//! with their whole subtree. Geometry plays no part here.
use vstd::prelude::*;

use crate::ui_node::{Display, UiNode};

verus! {

/// Back-to-front paint and hit-test order of node entities for one frame.
#[derive(Debug, PartialEq, Eq)]
pub struct UiStack {
    /// Entities from bottommost (painted first) to topmost.
    pub uinodes: Vec<u64>,
}

/// The sibling sort keys of `s`: each child's `z_index` paired with its
/// tree position.
pub open spec fn zpairs(s: Seq<UiNode>) -> Seq<(i64, usize)> {
    Seq::new(s.len(), |i: int| (s[i].z_index, i as usize))
}

/// Stable insertion of `x` into `s`: `x` lands after every element whose
/// key is at most `x`'s key.
pub open spec fn s_insert_z(s: Seq<(i64, usize)>, x: (i64, usize)) -> Seq<(i64, usize)>
    decreases s,
{
    if s.len() == 0 {
        seq![x]
    } else if s.last().0 <= x.0 {
        s.push(x)
    } else {
        s_insert_z(s.drop_last(), x).push(s.last())
    }
}

/// Stable insertion sort of sibling keys by `z_index` ascending.
pub open spec fn s_sort_z(s: Seq<(i64, usize)>) -> Seq<(i64, usize)>
    decreases s,
{
    if s.len() == 0 {
        s
    } else {
        s_insert_z(s_sort_z(s.drop_last()), s.last())
    }
}

/// The UI stack of the subtree rooted at `n`: nothing if the node is
/// hidden, otherwise the node itself followed by its children's stacks in
/// sibling paint order.
pub open spec fn stack_of(n: UiNode) -> Seq<u64>
    decreases n, 0int,
{
    if n.style.display is Hidden {
        Seq::empty()
    } else {
        seq![n.entity] + stack_children(n.children@, s_sort_z(zpairs(n.children@)), 0)
    }
}

/// The concatenated stacks of the children `cs` visited in the order given
/// by `ord[j..]`.
pub open spec fn stack_children(cs: Seq<UiNode>, ord: Seq<(i64, usize)>, j: int) -> Seq<u64>
    decreases cs, ord.len() - j + 1,
{
    if j < 0 || j >= ord.len() {
        Seq::empty()
    } else {
        let k = ord[j].1 as int;
        (if 0 <= k < cs.len() {
            stack_of(cs[k])
        } else {
            Seq::empty()
        }) + stack_children(cs, ord, j + 1)
    }
}

/// Inserts one sibling key into an already sorted run, keeping stability.
fn insert_pair(v: &mut Vec<(i64, usize)>, x: (i64, usize))
    ensures
        final(v)@ == s_insert_z(old(v)@, x),
    decreases old(v)@.len(),
{
    if v.len() == 0 {
        v.push(x);
        proof {
            assert(v@ =~= seq![x]);
        }
    } else if v[v.len() - 1].0 <= x.0 {
        v.push(x);
    } else {
        let last = v.pop().unwrap();
        insert_pair(v, x);
        v.push(last);
    }
}

/// Stable insertion sort of sibling keys by `z_index` ascending.
fn sort_pairs(v: &Vec<(i64, usize)>) -> (out: Vec<(i64, usize)>)
    ensures
        out@ == s_sort_z(v@),
{
    let mut out: Vec<(i64, usize)> = Vec::new();
    let mut j: usize = 0;
    proof {
        assert(v@.subrange(0, 0) =~= Seq::<(i64, usize)>::empty());
    }
    while j < v.len()
        invariant
            0 <= j <= v@.len(),
            out@ == s_sort_z(v@.subrange(0, j as int)),
        decreases v@.len() - j,
    {
        insert_pair(&mut out, v[j]);
        proof {
            assert(v@.subrange(0, j + 1).drop_last() =~= v@.subrange(0, j as int));
            assert(v@.subrange(0, j + 1).last() == v@[j as int]);
        }
        j = j + 1;
    }
    proof {
        assert(v@.subrange(0, v@.len() as int) =~= v@);
    }
    out
}

/// Appends the stack of the subtree rooted at `n` to `out`.
fn push_stack(n: &UiNode, out: &mut Vec<u64>)
    ensures
        final(out)@ == old(out)@ + stack_of(*n),
    decreases *n,
{
    if matches!(n.style.display, Display::Hidden) {
        proof {
            assert(out@ =~= old(out)@ + stack_of(*n));
        }
        return ;
    }
    out.push(n.entity);
    let mut pairs: Vec<(i64, usize)> = Vec::new();
    let mut i: usize = 0;
    while i < n.children.len()
        invariant
            0 <= i <= n.children@.len(),
            pairs@.len() == i,
            forall|k: int| 0 <= k < i ==> pairs@[k] == (n.children@[k].z_index, k as usize),
        decreases n.children@.len() - i,
    {
        pairs.push((n.children[i].z_index, i));
        i = i + 1;
    }
    proof {
        assert(pairs@ =~= zpairs(n.children@));
    }
    let order = sort_pairs(&pairs);
    let ghost cs = n.children@;
    let ghost ord = order@;
    let mut j: usize = 0;
    proof {
        assert(out@ + stack_children(cs, ord, 0) =~= old(out)@ + stack_of(*n));
    }
    while j < order.len()
        invariant
            0 <= j <= ord.len(),
            order@ == ord,
            out@ + stack_children(cs, ord, j as int) == old(out)@ + stack_of(*n),
        decreases ord.len() - j,
    {
        let ghost pre = out@;
        let k = order[j].1;
        if k < n.children.len() {
            push_stack(&n.children[k], out);
        }
        proof {
            assert(out@ + stack_children(cs, ord, j + 1) =~= pre + stack_children(
                cs,
                ord,
                j as int,
            ));
        }
        j = j + 1;
    }
    proof {
        assert(out@ =~= out@ + stack_children(cs, ord, ord.len() as int));
    }
}

/// Rebuilds the whole UI stack for the frame from the root's subtree.
/// The result is a function of tree order, `display` and `z_index` alone.
pub fn ui_stack_system(root: &UiNode) -> (out: UiStack)
    ensures
        out.uinodes@ == stack_of(*root),
{
    let mut v: Vec<u64> = Vec::new();
    push_stack(root, &mut v);
    proof {
        assert(v@ =~= stack_of(*root));
    }
    UiStack { uinodes: v }
}

/// A node with `display: none` contributes nothing to the UI stack: the
/// node and its whole subtree are excluded.
pub proof fn lemma_hidden_excluded(n: UiNode)
    requires
        n.style.display is Hidden,
    ensures
        stack_of(n) == Seq::<u64>::empty(),
{
}

/// Two nodes agree on everything the stacking resolver reads: identity,
/// `display`, `z_index`, and recursively their children in tree order.
/// Geometry, focus policy and all other style fields are free to differ.
pub open spec fn stack_inputs_eq(a: UiNode, b: UiNode) -> bool
    decreases a, 0int,
{
    &&& a.entity == b.entity
    &&& a.style.display == b.style.display
    &&& a.z_index == b.z_index
    &&& a.children@.len() == b.children@.len()
    &&& forest_inputs_eq(a.children@, b.children@, 0)
}

/// Pairwise agreement of stacking inputs over the forest tails `x[from..]`
/// and `y[from..]`.
pub open spec fn forest_inputs_eq(x: Seq<UiNode>, y: Seq<UiNode>, from: int) -> bool
    decreases x, x.len() - from + 1,
{
    if from < 0 || from >= x.len() {
        true
    } else {
        from < y.len() && stack_inputs_eq(x[from], y[from]) && forest_inputs_eq(x, y, from + 1)
    }
}

/// Each position of forests that agree on stacking inputs agrees.
proof fn lemma_forest_inputs_index(x: Seq<UiNode>, y: Seq<UiNode>, from: int, i: int)
    requires
        forest_inputs_eq(x, y, from),
        0 <= from <= i < x.len(),
    ensures
        i < y.len() && stack_inputs_eq(x[i], y[i]),
    decreases i - from,
{
    if from < i {
        lemma_forest_inputs_index(x, y, from + 1, i);
    }
}

/// The UI stack is a function solely of stacking-context membership (the
/// tree structure), `z_index` and tree order: trees that agree on those
/// produce the same stack, whatever else differs.
pub proof fn lemma_stack_function_of_inputs(a: UiNode, b: UiNode)
    requires
        stack_inputs_eq(a, b),
    ensures
        stack_of(a) == stack_of(b),
    decreases a, 0int,
{
    if !(a.style.display is Hidden) {
        assert forall|i: int| 0 <= i < a.children@.len() implies zpairs(a.children@)[i] == zpairs(
            b.children@,
        )[i] by {
            lemma_forest_inputs_index(a.children@, b.children@, 0, i);
        }
        assert(zpairs(a.children@) =~= zpairs(b.children@));
        lemma_stack_children_eq(
            a.children@,
            b.children@,
            s_sort_z(zpairs(a.children@)),
            0,
        );
    }
}

/// Children that agree on stacking inputs yield the same concatenated
/// stacks under any shared visiting order.
proof fn lemma_stack_children_eq(x: Seq<UiNode>, y: Seq<UiNode>, ord: Seq<(i64, usize)>, j: int)
    requires
        x.len() == y.len(),
        forest_inputs_eq(x, y, 0),
    ensures
        stack_children(x, ord, j) == stack_children(y, ord, j),
    decreases x, ord.len() - j + 1,
{
    if 0 <= j < ord.len() {
        let k = ord[j].1 as int;
        if 0 <= k < x.len() {
            lemma_forest_inputs_index(x, y, 0, k);
            lemma_stack_function_of_inputs(x[k], y[k]);
        }
        lemma_stack_children_eq(x, y, ord, j + 1);
    }
}

/// A sibling paint order that is sorted by `z_index` ascending and, among
/// equal `z_index`es, keeps tree (insertion) order.
pub open spec fn sibling_sorted(t: Seq<(i64, usize)>) -> bool {
    forall|i: int, j: int|
        0 <= i < j < t.len() ==> t[i].0 <= t[j].0 && (t[i].0 == t[j].0 ==> t[i].1 < t[j].1)
}

/// Stable insertion keeps the order sorted and adds exactly `x`.
proof fn lemma_insert_z_props(s: Seq<(i64, usize)>, x: (i64, usize))
    requires
        sibling_sorted(s),
        forall|i: int| 0 <= i < s.len() ==> (#[trigger] s[i]).1 < x.1,
    ensures
        sibling_sorted(s_insert_z(s, x)),
        s_insert_z(s, x).len() == s.len() + 1,
        forall|e: (i64, usize)|
            #[trigger] s_insert_z(s, x).contains(e) <==> s.contains(e) || e == x,
    decreases s,
{
    if s.len() == 0 {
        assert(s_insert_z(s, x) =~= seq![x]);
        assert forall|e: (i64, usize)|
            #[trigger] s_insert_z(s, x).contains(e) <==> s.contains(e) || e == x by {
            if e == x {
                assert(s_insert_z(s, x)[0] == x);
            }
        }
    } else if s.last().0 <= x.0 {
        let t = s.push(x);
        assert forall|i: int, j: int| 0 <= i < j < t.len() implies t[i].0 <= t[j].0 && (t[i].0
            == t[j].0 ==> t[i].1 < t[j].1) by {
            if j < t.len() - 1 {
            } else {
                assert(t[j] == x);
                if 0 <= i < s.len() {
                    assert(s[i].0 <= s.last().0);
                }
            }
        }
        assert forall|e: (i64, usize)| #[trigger] t.contains(e) <==> s.contains(e) || e == x by {
            if s.contains(e) {
                let w = choose|w: int| 0 <= w < s.len() && s[w] == e;
                assert(t[w] == e);
            }
            if e == x {
                assert(t[s.len() as int] == e);
            }
            if t.contains(e) {
                let w = choose|w: int| 0 <= w < t.len() && t[w] == e;
                if w < s.len() {
                    assert(s[w] == e);
                }
            }
        }
    } else {
        let d = s.drop_last();
        lemma_insert_z_props(d, x);
        let t0 = s_insert_z(d, x);
        let t = t0.push(s.last());
        assert(s_insert_z(s, x) == t);
        assert forall|i: int, j: int| 0 <= i < j < t.len() implies t[i].0 <= t[j].0 && (t[i].0
            == t[j].0 ==> t[i].1 < t[j].1) by {
            if j < t.len() - 1 {
            } else {
                assert(t[j] == s.last());
                let e = t0[i];
                assert(t0.contains(e));
                if e == x {
                } else {
                    let w = choose|w: int| 0 <= w < d.len() && d[w] == e;
                    assert(s[w] == e);
                    assert(s[w].0 <= s.last().0 && (s[w].0 == s.last().0 ==> s[w].1
                        < s.last().1));
                }
            }
        }
        assert forall|e: (i64, usize)| #[trigger] t.contains(e) <==> s.contains(e) || e == x by {
            if t.contains(e) {
                let w = choose|w: int| 0 <= w < t.len() && t[w] == e;
                if w < t0.len() {
                    assert(t0.contains(e));
                    if e != x {
                        let v = choose|v: int| 0 <= v < d.len() && d[v] == e;
                        assert(s[v] == e);
                    }
                }
            }
            if s.contains(e) {
                let w = choose|w: int| 0 <= w < s.len() && s[w] == e;
                if w < s.len() - 1 {
                    assert(d[w] == e);
                    assert(t0.contains(e));
                    let v = choose|v: int| 0 <= v < t0.len() && t0[v] == e;
                    assert(t[v] == e);
                } else {
                    assert(t.last() == e);
                }
            }
            if e == x {
                assert(t0.contains(e));
                let v = choose|v: int| 0 <= v < t0.len() && t0[v] == e;
                assert(t[v] == e);
            }
        }
    }
}

/// Sorting keys whose tree positions strictly increase yields a sibling
/// order sorted by `z_index` with ties in tree order, containing exactly
/// the given keys.
proof fn lemma_sort_z_props(s: Seq<(i64, usize)>)
    requires
        forall|i: int, j: int| 0 <= i < j < s.len() ==> (#[trigger] s[i]).1 < (#[trigger] s[j]).1,
    ensures
        sibling_sorted(s_sort_z(s)),
        s_sort_z(s).len() == s.len(),
        forall|e: (i64, usize)| #[trigger] s_sort_z(s).contains(e) <==> s.contains(e),
    decreases s,
{
    if s.len() > 0 {
        let d = s.drop_last();
        lemma_sort_z_props(d);
        let t0 = s_sort_z(d);
        assert forall|i: int| 0 <= i < t0.len() implies (#[trigger] t0[i]).1 < s.last().1 by {
            assert(t0.contains(t0[i]));
            let w = choose|w: int| 0 <= w < d.len() && d[w] == t0[i];
            assert(s[w] == t0[i]);
        }
        lemma_insert_z_props(t0, s.last());
        assert forall|e: (i64, usize)| #[trigger] s_sort_z(s).contains(e) <==> s.contains(e) by {
            if s_sort_z(s).contains(e) {
                if e != s.last() {
                    assert(t0.contains(e));
                    let w = choose|w: int| 0 <= w < d.len() && d[w] == e;
                    assert(s[w] == e);
                } else {
                    assert(s[s.len() - 1] == e);
                }
            }
            if s.contains(e) {
                let w = choose|w: int| 0 <= w < s.len() && s[w] == e;
                if w < s.len() - 1 {
                    assert(d[w] == e);
                }
            }
        }
    }
}

/// The law of sibling paint order: for any sibling set, the visiting order
/// the resolver uses is exactly the sibling keys sorted by `z_index`
/// ascending, equal `z_index`es kept in tree (insertion) order.
pub proof fn lemma_sibling_order(s: Seq<UiNode>)
    requires
        s.len() <= usize::MAX,
    ensures
        sibling_sorted(s_sort_z(zpairs(s))),
        s_sort_z(zpairs(s)).len() == s.len(),
        forall|e: (i64, usize)| #[trigger] s_sort_z(zpairs(s)).contains(e) <==> zpairs(s).contains(e),
{
    assert forall|i: int, j: int| 0 <= i < j < zpairs(s).len() implies (#[trigger] zpairs(s)[i]).1
        < (#[trigger] zpairs(s)[j]).1 by {
        assert(zpairs(s)[i].1 == i as usize);
        assert(zpairs(s)[j].1 == j as usize);
    }
    lemma_sort_z_props(zpairs(s));
}

} // verus!
