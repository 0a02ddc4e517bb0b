//! The clipping and outline resolver. Runs after layout (and, in the host
//! pipeline, after transform propagation): each node's clip rectangle is
//! the intersection of every ancestor's declared overflow region with the
//! frame's viewport, so a child's clip never exceeds its parent's. Outline
//! rectangles are the border box grown by the resolved outline width; they
//! feed rendering only and never feed back into layout or clipping.
use vstd::prelude::*;

use crate::geometry::{
    cadd, cclamp, csub, in_coord, lemma_intersect_sub, s_clamp, s_intersect, s_max0, s_rect_sub,
    s_resolve, COORD_LIMIT, FACTOR_LIMIT, Rect, Val,
};
use crate::layout::{lemma_lv_seq_index, lv, lv_seq, GLayout, LayoutNode};

verus! {

/// Resolved clip of one node and its subtree.
pub struct ClipNode {
    /// Owning entity.
    pub entity: u64,
    /// The node's own resolved border box, carried through for hit-testing.
    pub rect: Rect,
    /// The clip rectangle ancestors impose on this node: the intersection
    /// of all ancestor overflow regions with the viewport.
    pub clip: Rect,
    /// Resolved children, in tree order.
    pub children: Vec<ClipNode>,
}

/// The mathematical model of a resolved clip subtree.
pub struct GClip {
    pub entity: u64,
    pub rect: Rect,
    pub clip: Rect,
    pub children: Seq<GClip>,
}

/// The model of a clip tree.
pub open spec fn cv(c: ClipNode) -> GClip
    decreases c, 0int,
{
    GClip { entity: c.entity, rect: c.rect, clip: c.clip, children: cv_seq(c.children@, 0) }
}

/// The models of the clip subtrees `s[from..]`.
pub open spec fn cv_seq(s: Seq<ClipNode>, from: int) -> Seq<GClip>
    decreases s, s.len() - from + 1,
{
    if from < 0 || from >= s.len() {
        Seq::empty()
    } else {
        seq![cv(s[from])] + cv_seq(s, from + 1)
    }
}

/// The region a node lets its descendants paint in: its own border box on
/// each clipped axis, unbounded (the full coordinate range) on the others.
pub open spec fn s_overflow_region(g: GLayout) -> Rect {
    Rect {
        min_x: if g.overflow.x is Clip {
            g.rect.min_x
        } else {
            (-COORD_LIMIT) as i64
        },
        max_x: if g.overflow.x is Clip {
            g.rect.max_x
        } else {
            COORD_LIMIT
        },
        min_y: if g.overflow.y is Clip {
            g.rect.min_y
        } else {
            (-COORD_LIMIT) as i64
        },
        max_y: if g.overflow.y is Clip {
            g.rect.max_y
        } else {
            COORD_LIMIT
        },
    }
}

/// The resolved clip tree of `g` under the inherited clip rectangle:
/// this node is clipped by `inherited`; its children by `inherited`
/// intersected with this node's overflow region.
pub open spec fn s_clip_tree(g: GLayout, inherited: Rect) -> GClip
    decreases g, 0int,
{
    GClip {
        entity: g.entity,
        rect: g.rect,
        clip: inherited,
        children: s_clip_seq(g.children, 0, s_intersect(inherited, s_overflow_region(g))),
    }
}

/// Clip trees of the subtrees `s[from..]` under a shared inherited clip.
pub open spec fn s_clip_seq(s: Seq<GLayout>, from: int, inherited: Rect) -> Seq<GClip>
    decreases s, s.len() - from + 1,
{
    if from < 0 || from >= s.len() {
        Seq::empty()
    } else {
        seq![s_clip_tree(s[from], inherited)] + s_clip_seq(s, from + 1, inherited)
    }
}

/// Clip trees built positionwise model `s_clip_seq` as a whole.
proof fn lemma_clip_children_eq(gs: Seq<GLayout>, ks: Seq<ClipNode>, from: int, inherited: Rect)
    requires
        ks.len() == gs.len(),
        0 <= from <= gs.len(),
        forall|k: int| 0 <= k < gs.len() ==> cv(#[trigger] ks[k]) == s_clip_tree(gs[k], inherited),
    ensures
        cv_seq(ks, from) == s_clip_seq(gs, from, inherited),
    decreases gs.len() - from,
{
    if from < gs.len() {
        lemma_clip_children_eq(gs, ks, from + 1, inherited);
        assert(cv_seq(ks, from) =~= s_clip_seq(gs, from, inherited));
    } else {
        assert(cv_seq(ks, from) =~= s_clip_seq(gs, from, inherited));
    }
}

/// Resolves the clip tree of one laid-out subtree under an inherited clip.
fn clip_rec(l: &LayoutNode, inherited: Rect) -> (out: ClipNode)
    ensures
        cv(out) == s_clip_tree(lv(*l), inherited),
    decreases *l,
{
    let region = Rect {
        min_x: if matches!(l.overflow.x, crate::ui_node::OverflowAxis::Clip) {
            l.rect.min_x
        } else {
            -COORD_LIMIT
        },
        max_x: if matches!(l.overflow.x, crate::ui_node::OverflowAxis::Clip) {
            l.rect.max_x
        } else {
            COORD_LIMIT
        },
        min_y: if matches!(l.overflow.y, crate::ui_node::OverflowAxis::Clip) {
            l.rect.min_y
        } else {
            -COORD_LIMIT
        },
        max_y: if matches!(l.overflow.y, crate::ui_node::OverflowAxis::Clip) {
            l.rect.max_y
        } else {
            COORD_LIMIT
        },
    };
    proof {
        assert(region == s_overflow_region(lv(*l)));
    }
    let child_inherited = inherited.intersect(&region);
    let mut kids: Vec<ClipNode> = Vec::new();
    let mut i: usize = 0;
    proof {
        lemma_lv_seq_index(l.children@, 0);
    }
    while i < l.children.len()
        invariant
            0 <= i <= l.children@.len(),
            kids@.len() == i,
            child_inherited == s_intersect(inherited, s_overflow_region(lv(*l))),
            lv_seq(l.children@, 0).len() == l.children@.len(),
            forall|k: int|
                0 <= k < l.children@.len() ==> lv_seq(l.children@, 0)[k] == lv(
                    #[trigger] l.children@[k],
                ),
            forall|k: int|
                0 <= k < i ==> cv(#[trigger] kids@[k]) == s_clip_tree(
                    lv_seq(l.children@, 0)[k],
                    child_inherited,
                ),
        decreases l.children@.len() - i,
    {
        let kid = clip_rec(&l.children[i], child_inherited);
        kids.push(kid);
        i = i + 1;
    }
    proof {
        lemma_clip_children_eq(lv_seq(l.children@, 0), kids@, 0, child_inherited);
    }
    ClipNode { entity: l.entity, rect: l.rect, clip: inherited, children: kids }
}

/// Recomputes every node's clip rectangle for the frame from the resolved
/// layout: a node is clipped by the intersection of all its ancestors'
/// overflow regions with the viewport; roots start viewport-bounded.
pub fn update_clipping_system(l: &LayoutNode, viewport: Rect) -> (out: ClipNode)
    ensures
        cv(out) == s_clip_tree(lv(*l), viewport),
{
    clip_rec(l, viewport)
}

/// Every child's clip rectangle lies within its parent's, recursively.
pub open spec fn s_clips_nested(c: GClip) -> bool
    decreases c, 0int,
{
    s_nested_seq(c.children, 0, c.clip)
}

/// Nesting of the clip subtrees `s[from..]` under a parent clip.
pub open spec fn s_nested_seq(s: Seq<GClip>, from: int, parent: Rect) -> bool
    decreases s, s.len() - from + 1,
{
    if from < 0 || from >= s.len() {
        true
    } else {
        s_rect_sub(s[from].clip, parent) && s_clips_nested(s[from]) && s_nested_seq(
            s,
            from + 1,
            parent,
        )
    }
}

/// The law of clip containment: in a resolved clip tree, a child's clip
/// rectangle is always contained in (never exceeds) its parent's clip
/// rectangle.
pub proof fn lemma_clip_containment(g: GLayout, inherited: Rect)
    ensures
        s_clips_nested(s_clip_tree(g, inherited)),
    decreases g, 1int,
{
    lemma_intersect_sub(inherited, s_overflow_region(g));
    lemma_nested_seq(g.children, 0, s_intersect(inherited, s_overflow_region(g)), inherited);
}

/// Children clipped by a region inside the parent's clip nest under it.
proof fn lemma_nested_seq(s: Seq<GLayout>, from: int, inherited: Rect, parent: Rect)
    requires
        s_rect_sub(inherited, parent),
    ensures
        s_nested_seq(s_clip_seq(s, from, inherited), 0, parent),
    decreases s, s.len() - from + 2,
{
    if 0 <= from < s.len() {
        lemma_clip_containment(s[from], inherited);
        lemma_nested_seq(s, from + 1, inherited, parent);
        lemma_nested_cons(s_clip_tree(s[from], inherited), s_clip_seq(s, from + 1, inherited), parent);
    }
}

/// Prepending a nested subtree whose clip lies in the parent keeps the
/// forest nested.
proof fn lemma_nested_cons(c: GClip, rest: Seq<GClip>, parent: Rect)
    requires
        s_rect_sub(c.clip, parent),
        s_clips_nested(c),
        s_nested_seq(rest, 0, parent),
    ensures
        s_nested_seq(seq![c] + rest, 0, parent),
{
    let s = seq![c] + rest;
    assert(s[0] == c);
    lemma_nested_shift(rest, s, 0, parent);
}

/// Nesting of a forest tail transfers along a one-slot shift.
proof fn lemma_nested_shift(rest: Seq<GClip>, s: Seq<GClip>, from: int, parent: Rect)
    requires
        0 <= from <= rest.len(),
        s.len() == rest.len() + 1,
        forall|i: int| 0 <= i < rest.len() ==> s[i + 1] == rest[i],
        s_nested_seq(rest, from, parent),
    ensures
        s_nested_seq(s, from + 1, parent),
    decreases rest.len() - from,
{
    if from < rest.len() {
        assert(s[from + 1] == rest[from]);
        lemma_nested_shift(rest, s, from + 1, parent);
    }
}

/// The visible (hit-testable) rectangles of a clip subtree, in depth-first
/// order: each node's border box intersected with its clip rectangle.
pub open spec fn s_hit_rects(c: GClip) -> Seq<(u64, Rect)>
    decreases c, 0int,
{
    seq![(c.entity, s_intersect(c.rect, c.clip))] + s_hit_rects_seq(c.children, 0)
}

/// Visible rectangles of the clip subtrees `s[from..]`.
pub open spec fn s_hit_rects_seq(s: Seq<GClip>, from: int) -> Seq<(u64, Rect)>
    decreases s, s.len() - from + 1,
{
    if from < 0 || from >= s.len() {
        Seq::empty()
    } else {
        s_hit_rects(s[from]) + s_hit_rects_seq(s, from + 1)
    }
}

/// Appends the visible rectangles of a clip subtree in depth-first order.
fn hit_rects_rec(c: &ClipNode, out: &mut Vec<(u64, Rect)>)
    ensures
        final(out)@ == old(out)@ + s_hit_rects(cv(*c)),
    decreases *c,
{
    out.push((c.entity, c.rect.intersect(&c.clip)));
    proof {
        lemma_lv_cv_seq_index(c.children@, 0);
        assert(out@ + s_hit_rects_seq(cv_seq(c.children@, 0), 0) =~= old(out)@ + s_hit_rects(
            cv(*c),
        ));
    }
    let mut i: usize = 0;
    while i < c.children.len()
        invariant
            0 <= i <= c.children@.len(),
            cv_seq(c.children@, 0).len() == c.children@.len(),
            forall|k: int|
                0 <= k < c.children@.len() ==> cv_seq(c.children@, 0)[k] == cv(
                    #[trigger] c.children@[k],
                ),
            out@ + s_hit_rects_seq(cv_seq(c.children@, 0), i as int) == old(out)@ + s_hit_rects(
                cv(*c),
            ),
        decreases c.children@.len() - i,
    {
        let ghost pre = out@;
        hit_rects_rec(&c.children[i], out);
        proof {
            assert(out@ + s_hit_rects_seq(cv_seq(c.children@, 0), i + 1) =~= pre
                + s_hit_rects_seq(cv_seq(c.children@, 0), i as int));
        }
        i = i + 1;
    }
    proof {
        assert(out@ =~= out@ + s_hit_rects_seq(
            cv_seq(c.children@, 0),
            c.children@.len() as int,
        ));
    }
}

/// Shape and content of a clip model forest, positionwise.
proof fn lemma_lv_cv_seq_index(s: Seq<ClipNode>, from: int)
    requires
        0 <= from <= s.len(),
    ensures
        cv_seq(s, from).len() == s.len() - from,
        forall|i: int| from <= i < s.len() ==> cv_seq(s, from)[i - from] == cv(#[trigger] s[i]),
    decreases s.len() - from,
{
    if from < s.len() {
        lemma_lv_cv_seq_index(s, from + 1);
    }
}

/// Collects every node's visible rectangle — border box intersected with
/// its resolved clip — in depth-first order, for the focus resolver.
pub fn collect_hit_rects(c: &ClipNode) -> (out: Vec<(u64, Rect)>)
    ensures
        out@ == s_hit_rects(cv(*c)),
{
    let mut out: Vec<(u64, Rect)> = Vec::new();
    hit_rects_rec(c, &mut out);
    proof {
        assert(out@ =~= s_hit_rects(cv(*c)));
    }
    out
}

/// First visible rectangle recorded for an entity, if any.
pub open spec fn s_find_rect(s: Seq<(u64, Rect)>, e: u64, from: int) -> Option<Rect>
    decreases s.len() - from,
{
    if from < 0 || from >= s.len() {
        Option::None
    } else if s[from].0 == e {
        Option::Some(s[from].1)
    } else {
        s_find_rect(s, e, from + 1)
    }
}

/// Looks an entity's visible rectangle up by linear search (first match).
pub fn find_rect(v: &Vec<(u64, Rect)>, e: u64) -> (r: Option<Rect>)
    ensures
        r == s_find_rect(v@, e, 0),
{
    let mut i: usize = 0;
    while i < v.len()
        invariant
            0 <= i <= v@.len(),
            s_find_rect(v@, e, 0) == s_find_rect(v@, e, i as int),
        decreases v@.len() - i,
    {
        if v[i].0 == e {
            return Option::Some(v[i].1);
        }
        i = i + 1;
    }
    Option::None
}

/// The outline rectangle of one resolved node: its border box grown on
/// every side by the outline width, resolved against the node's own width.
pub open spec fn s_outline_rect(g: GLayout, vw: int, vh: int, sc: int) -> Rect {
    let width = s_clamp(s_clamp(g.rect.max_x as int) - s_clamp(g.rect.min_x as int));
    let ow = s_max0(s_resolve(g.outline_width, width, vw, vh, sc));
    Rect {
        min_x: s_clamp(s_clamp(g.rect.min_x as int) - ow) as i64,
        min_y: s_clamp(s_clamp(g.rect.min_y as int) - ow) as i64,
        max_x: s_clamp(s_clamp(g.rect.max_x as int) + ow) as i64,
        max_y: s_clamp(s_clamp(g.rect.max_y as int) + ow) as i64,
    }
}

/// Outline rectangles of a resolved subtree in depth-first order.
pub open spec fn s_outlines(g: GLayout, vw: int, vh: int, sc: int) -> Seq<(u64, Rect)>
    decreases g, 0int,
{
    seq![(g.entity, s_outline_rect(g, vw, vh, sc))] + s_outlines_seq(g.children, 0, vw, vh, sc)
}

/// Outline rectangles of the subtrees `s[from..]`.
pub open spec fn s_outlines_seq(s: Seq<GLayout>, from: int, vw: int, vh: int, sc: int) -> Seq<
    (u64, Rect),
>
    decreases s, s.len() - from + 1,
{
    if from < 0 || from >= s.len() {
        Seq::empty()
    } else {
        s_outlines(s[from], vw, vh, sc) + s_outlines_seq(s, from + 1, vw, vh, sc)
    }
}

/// Appends the outline rectangles of one resolved subtree.
fn outlines_rec(l: &LayoutNode, vw: i64, vh: i64, sc: i64, out: &mut Vec<(u64, Rect)>)
    requires
        crate::geometry::val_wf(l.outline_width),
        0 <= vw <= COORD_LIMIT,
        0 <= vh <= COORD_LIMIT,
        0 <= sc <= FACTOR_LIMIT,
        outline_vals_wf(lv(*l)),
    ensures
        final(out)@ == old(out)@ + s_outlines(lv(*l), vw as int, vh as int, sc as int),
    decreases *l,
{
    let mnx = cclamp(l.rect.min_x);
    let mny = cclamp(l.rect.min_y);
    let mxx = cclamp(l.rect.max_x);
    let mxy = cclamp(l.rect.max_y);
    let width = csub(mxx, mnx);
    let ow = match crate::geometry::resolve_val(&l.outline_width, width, vw, vh, sc) {
        Option::Some(x) => crate::geometry::cmax0(x),
        Option::None => 0,
    };
    let r = Rect {
        min_x: csub(mnx, ow),
        min_y: csub(mny, ow),
        max_x: cadd(mxx, ow),
        max_y: cadd(mxy, ow),
    };
    out.push((l.entity, r));
    proof {
        assert(r == s_outline_rect(lv(*l), vw as int, vh as int, sc as int));
        lemma_lv_seq_index(l.children@, 0);
        assert(out@ + s_outlines_seq(lv_seq(l.children@, 0), 0, vw as int, vh as int, sc as int)
            =~= old(out)@ + s_outlines(lv(*l), vw as int, vh as int, sc as int));
    }
    let mut i: usize = 0;
    while i < l.children.len()
        invariant
            0 <= i <= l.children@.len(),
            0 <= vw <= COORD_LIMIT,
            0 <= vh <= COORD_LIMIT,
            0 <= sc <= FACTOR_LIMIT,
            outline_vals_wf(lv(*l)),
            lv_seq(l.children@, 0).len() == l.children@.len(),
            forall|k: int|
                0 <= k < l.children@.len() ==> lv_seq(l.children@, 0)[k] == lv(
                    #[trigger] l.children@[k],
                ),
            out@ + s_outlines_seq(lv_seq(l.children@, 0), i as int, vw as int, vh as int, sc as int)
                == old(out)@ + s_outlines(lv(*l), vw as int, vh as int, sc as int),
        decreases l.children@.len() - i,
    {
        let ghost pre = out@;
        proof {
            lemma_outline_vals_index(lv(*l), i as int);
        }
        outlines_rec(&l.children[i], vw, vh, sc, out);
        proof {
            assert(out@ + s_outlines_seq(
                lv_seq(l.children@, 0),
                i + 1,
                vw as int,
                vh as int,
                sc as int,
            ) =~= pre + s_outlines_seq(
                lv_seq(l.children@, 0),
                i as int,
                vw as int,
                vh as int,
                sc as int,
            ));
        }
        i = i + 1;
    }
    proof {
        assert(out@ =~= out@ + s_outlines_seq(
            lv_seq(l.children@, 0),
            l.children@.len() as int,
            vw as int,
            vh as int,
            sc as int,
        ));
    }
}

/// Every outline width in a resolved model is a well-formed length.
pub open spec fn outline_vals_wf(g: GLayout) -> bool
    decreases g, 0int,
{
    crate::geometry::val_wf(g.outline_width) && outline_vals_wf_seq(g.children, 0)
}

/// Outline-width well-formedness of the model forest `s[from..]`.
pub open spec fn outline_vals_wf_seq(s: Seq<GLayout>, from: int) -> bool
    decreases s, s.len() - from + 1,
{
    if from < 0 || from >= s.len() {
        true
    } else {
        outline_vals_wf(s[from]) && outline_vals_wf_seq(s, from + 1)
    }
}

/// Each child of an outline-well-formed model is outline-well-formed.
proof fn lemma_outline_vals_index(g: GLayout, i: int)
    requires
        outline_vals_wf(g),
        0 <= i < g.children.len(),
    ensures
        outline_vals_wf(g.children[i]),
{
    lemma_outline_tail(g.children, 0, i);
}

/// Well-formedness of a forest tail reaches each member.
proof fn lemma_outline_tail(s: Seq<GLayout>, from: int, i: int)
    requires
        outline_vals_wf_seq(s, from),
        0 <= from <= i < s.len(),
    ensures
        outline_vals_wf(s[i]),
    decreases i - from,
{
    if from < i {
        lemma_outline_tail(s, from + 1, i);
    }
}

/// Resolves every node's outline rectangle for the frame, in depth-first
/// order: the border box expanded outward by the resolved outline width.
/// Outlines never participate in layout or clipping.
pub fn resolve_outlines_system(l: &LayoutNode, vw: i64, vh: i64, sc: i64) -> (out: Vec<(u64, Rect)>)
    requires
        crate::geometry::val_wf(l.outline_width),
        0 <= vw <= COORD_LIMIT,
        0 <= vh <= COORD_LIMIT,
        0 <= sc <= FACTOR_LIMIT,
        outline_vals_wf(lv(*l)),
    ensures
        out@ == s_outlines(lv(*l), vw as int, vh as int, sc as int),
{
    let mut out: Vec<(u64, Rect)> = Vec::new();
    outlines_rec(l, vw, vh, sc, &mut out);
    proof {
        assert(out@ =~= s_outlines(lv(*l), vw as int, vh as int, sc as int));
    }
    out
}

} // verus!
