//! The layout pass: resolves an absolute position and size for every node
//! of a well-formed tree, top-down, using the flexbox model over integer
//! geometry. Children in flow split the container's free main-axis space
//! by `flex_grow` (or absorb a deficit by `flex_shrink`), min/max clamps
//! apply after flexible sizing, percentages resolve against the containing
//! block, and `Auto` lengths fall back to the externally supplied
//! intrinsic size. Every arithmetic step saturates, so a degenerate style
//! resolves to a defined clamped value instead of failing. The result is a
//! pure function of the tree, the available space and the scale factor —
//! the executable pass is proved equal to the specification `s_layout_root`.
use vstd::prelude::*;

use crate::geometry::{
    cadd, cmax0, csub, in_coord, resolve_val, s_clamp, s_max0, s_resolve, val_is_auto, COORD_LIMIT,
    FACTOR_LIMIT, Rect, UiScale, Val, ui_scale_wf,
};
use crate::ui_node::{
    lemma_wf_forest_index, style_wf, wf_forest, wf_tree, AlignItems, Display, FlexDirection,
    JustifyContent, Overflow, PositionType, Style, UiNode,
};

verus! {

/// Resolved geometry of one node and its subtree: the output of the layout
/// pass, mirroring the input tree's shape. Carries through the fields the
/// later clipping and outline passes read.
pub struct LayoutNode {
    /// Owning entity.
    pub entity: u64,
    /// Absolute border-box rectangle resolved for this frame.
    pub rect: Rect,
    /// The node's overflow setting, for the clipping pass.
    pub overflow: Overflow,
    /// The node's outline width, for the outline pass.
    pub outline_width: Val,
    /// Resolved children, in tree order.
    pub children: Vec<LayoutNode>,
}

/// The mathematical model of a resolved subtree.
pub struct GLayout {
    pub entity: u64,
    pub rect: Rect,
    pub overflow: Overflow,
    pub outline_width: Val,
    pub children: Seq<GLayout>,
}

/// The model of a resolved tree.
pub open spec fn lv(l: LayoutNode) -> GLayout
    decreases l, 0int,
{
    GLayout {
        entity: l.entity,
        rect: l.rect,
        overflow: l.overflow,
        outline_width: l.outline_width,
        children: lv_seq(l.children@, 0),
    }
}

/// The models of the subtrees `s[from..]`.
pub open spec fn lv_seq(s: Seq<LayoutNode>, from: int) -> Seq<GLayout>
    decreases s, s.len() - from + 1,
{
    if from < 0 || from >= s.len() {
        Seq::empty()
    } else {
        seq![lv(s[from])] + lv_seq(s, from + 1)
    }
}

/// Shape and content of a model forest, positionwise.
pub proof fn lemma_lv_seq_index(s: Seq<LayoutNode>, from: int)
    requires
        0 <= from <= s.len(),
    ensures
        lv_seq(s, from).len() == s.len() - from,
        forall|i: int| from <= i < s.len() ==> lv_seq(s, from)[i - from] == lv(#[trigger] s[i]),
    decreases s.len() - from,
{
    if from < s.len() {
        lemma_lv_seq_index(s, from + 1);
    }
}

/// Non-auto resolution with a fallback for `Auto`.
pub open spec fn s_resolve_or(v: Val, fallback: int, basis: int, vw: int, vh: int, sc: int) -> int {
    if val_is_auto(v) {
        fallback
    } else {
        s_resolve(v, basis, vw, vh, sc)
    }
}

/// Applies the min/max size bounds (`Auto` means unbounded) to a candidate
/// size, min winning over max; the result is a valid size.
pub open spec fn s_mm(
    vmin: Val,
    vmax: Val,
    f: int,
    basis: int,
    vw: int,
    vh: int,
    sc: int,
) -> int {
    let mx = if val_is_auto(vmax) {
        COORD_LIMIT as int
    } else {
        s_max0(s_resolve(vmax, basis, vw, vh, sc))
    };
    let mn = if val_is_auto(vmin) {
        0
    } else {
        s_max0(s_resolve(vmin, basis, vw, vh, sc))
    };
    let r = if f > mx {
        mx
    } else {
        f
    };
    if r < mn {
        mn
    } else {
        r
    }
}

/// Whether a node participates in sibling flow.
pub open spec fn is_flow(c: UiNode) -> bool {
    !(c.style.display is Hidden) && c.style.position_type is Relative
}

/// Main-axis preferred size value.
pub open spec fn s_main_val(st: Style, row: bool) -> Val {
    if row {
        st.width
    } else {
        st.height
    }
}

/// Cross-axis preferred size value.
pub open spec fn s_cross_val(st: Style, row: bool) -> Val {
    if row {
        st.height
    } else {
        st.width
    }
}

/// Main-axis intrinsic (content) size.
pub open spec fn s_intr_main(c: UiNode, row: bool) -> int {
    if row {
        c.intrinsic_w as int
    } else {
        c.intrinsic_h as int
    }
}

/// Cross-axis intrinsic (content) size.
pub open spec fn s_intr_cross(c: UiNode, row: bool) -> int {
    if row {
        c.intrinsic_h as int
    } else {
        c.intrinsic_w as int
    }
}

/// Leading main-axis margin.
pub open spec fn s_mlead(c: UiNode, row: bool, am: int, vw: int, vh: int, sc: int) -> int {
    s_resolve(
        if row {
            c.style.margin.left
        } else {
            c.style.margin.top
        },
        am,
        vw,
        vh,
        sc,
    )
}

/// Trailing main-axis margin.
pub open spec fn s_mtrail(c: UiNode, row: bool, am: int, vw: int, vh: int, sc: int) -> int {
    s_resolve(
        if row {
            c.style.margin.right
        } else {
            c.style.margin.bottom
        },
        am,
        vw,
        vh,
        sc,
    )
}

/// Leading cross-axis margin.
pub open spec fn s_mclead(c: UiNode, row: bool, ac: int, vw: int, vh: int, sc: int) -> int {
    s_resolve(
        if row {
            c.style.margin.top
        } else {
            c.style.margin.left
        },
        ac,
        vw,
        vh,
        sc,
    )
}

/// Trailing cross-axis margin.
pub open spec fn s_mctrail(c: UiNode, row: bool, ac: int, vw: int, vh: int, sc: int) -> int {
    s_resolve(
        if row {
            c.style.margin.bottom
        } else {
            c.style.margin.right
        },
        ac,
        vw,
        vh,
        sc,
    )
}

/// Main-axis starting size of a child before flexible sizing: the flex
/// basis, else the preferred size, else the intrinsic size; never negative.
pub open spec fn s_basis(c: UiNode, row: bool, am: int, vw: int, vh: int, sc: int) -> int {
    s_max0(
        s_resolve_or(
            c.style.flex_basis,
            s_resolve_or(s_main_val(c.style, row), s_intr_main(c, row), am, vw, vh, sc),
            am,
            vw,
            vh,
            sc,
        ),
    )
}

/// A child's basis together with its main-axis margins.
pub open spec fn s_outer_basis(c: UiNode, row: bool, am: int, vw: int, vh: int, sc: int) -> int {
    s_clamp(
        s_clamp(s_mlead(c, row, am, vw, vh, sc) + s_basis(c, row, am, vw, vh, sc)) + s_mtrail(
            c,
            row,
            am,
            vw,
            vh,
            sc,
        ),
    )
}

/// Sum of outer bases of the flow children among `s[from..]`.
pub open spec fn s_sum_ob(s: Seq<UiNode>, from: int, row: bool, am: int, vw: int, vh: int, sc: int) -> int
    decreases s.len() - from,
{
    if from < 0 || from >= s.len() {
        0
    } else if is_flow(s[from]) {
        s_clamp(s_outer_basis(s[from], row, am, vw, vh, sc) + s_sum_ob(s, from + 1, row, am, vw, vh, sc))
    } else {
        s_sum_ob(s, from + 1, row, am, vw, vh, sc)
    }
}

/// Total grow weight of the flow children among `s[from..]`.
pub open spec fn s_sum_grow(s: Seq<UiNode>, from: int) -> int
    decreases s.len() - from,
{
    if from < 0 || from >= s.len() {
        0
    } else if is_flow(s[from]) {
        s_clamp(s[from].style.flex_grow + s_sum_grow(s, from + 1))
    } else {
        s_sum_grow(s, from + 1)
    }
}

/// Total shrink weight of the flow children among `s[from..]`.
pub open spec fn s_sum_shrink(s: Seq<UiNode>, from: int) -> int
    decreases s.len() - from,
{
    if from < 0 || from >= s.len() {
        0
    } else if is_flow(s[from]) {
        s_clamp(s[from].style.flex_shrink + s_sum_shrink(s, from + 1))
    } else {
        s_sum_shrink(s, from + 1)
    }
}

/// Resolved main-axis size of a flow child: basis, plus its grow share of
/// positive free space or minus its shrink share of the deficit, then the
/// min/max bounds.
pub open spec fn s_main_size(
    c: UiNode,
    row: bool,
    am: int,
    vw: int,
    vh: int,
    sc: int,
    free: int,
    tg: int,
    ts: int,
) -> int {
    let base = s_basis(c, row, am, vw, vh, sc);
    let flexed = if free > 0 && tg > 0 {
        s_clamp(base + s_clamp((free * c.style.flex_grow) / tg))
    } else if free < 0 && ts > 0 {
        s_max0(s_clamp(base - s_clamp(((0 - free) * c.style.flex_shrink) / ts)))
    } else {
        base
    };
    s_mm(
        if row {
            c.style.min_width
        } else {
            c.style.min_height
        },
        if row {
            c.style.max_width
        } else {
            c.style.max_height
        },
        flexed,
        am,
        vw,
        vh,
        sc,
    )
}

/// A flow child's resolved main size together with its margins.
pub open spec fn s_outer_main(
    c: UiNode,
    row: bool,
    am: int,
    vw: int,
    vh: int,
    sc: int,
    free: int,
    tg: int,
    ts: int,
) -> int {
    s_clamp(
        s_clamp(s_mlead(c, row, am, vw, vh, sc) + s_main_size(c, row, am, vw, vh, sc, free, tg, ts))
            + s_mtrail(c, row, am, vw, vh, sc),
    )
}

/// Sum of resolved outer main sizes of the flow children among `s[from..]`.
pub open spec fn s_sum_om(
    s: Seq<UiNode>,
    from: int,
    row: bool,
    am: int,
    vw: int,
    vh: int,
    sc: int,
    free: int,
    tg: int,
    ts: int,
) -> int
    decreases s.len() - from,
{
    if from < 0 || from >= s.len() {
        0
    } else if is_flow(s[from]) {
        s_clamp(
            s_outer_main(s[from], row, am, vw, vh, sc, free, tg, ts) + s_sum_om(
                s,
                from + 1,
                row,
                am,
                vw,
                vh,
                sc,
                free,
                tg,
                ts,
            ),
        )
    } else {
        s_sum_om(s, from + 1, row, am, vw, vh, sc, free, tg, ts)
    }
}

/// Number of flow children among `s[from..]`.
pub open spec fn s_count_flow(s: Seq<UiNode>, from: int) -> int
    decreases s.len() - from,
{
    if from < 0 || from >= s.len() {
        0
    } else if is_flow(s[from]) {
        s_clamp(1 + s_count_flow(s, from + 1))
    } else {
        s_count_flow(s, from + 1)
    }
}

/// Leading offset the justify-content policy puts before the first flow
/// child, given the leftover space `l` and the flow-child count `nf`.
pub open spec fn s_lead(j: JustifyContent, l: int, nf: int) -> int {
    match j {
        JustifyContent::Start => 0,
        JustifyContent::Center => l / 2,
        JustifyContent::End => l,
        JustifyContent::SpaceBetween => 0,
        JustifyContent::SpaceAround => if nf >= 1 {
            (l / nf) / 2
        } else {
            0
        },
        JustifyContent::SpaceEvenly => if nf >= 1 {
            l / (nf + 1)
        } else {
            0
        },
    }
}

/// Gap the justify-content policy puts between consecutive flow children.
pub open spec fn s_gap(j: JustifyContent, l: int, nf: int) -> int {
    match j {
        JustifyContent::Start => 0,
        JustifyContent::Center => 0,
        JustifyContent::End => 0,
        JustifyContent::SpaceBetween => if nf >= 2 {
            l / (nf - 1)
        } else {
            0
        },
        JustifyContent::SpaceAround => if nf >= 1 {
            l / nf
        } else {
            0
        },
        JustifyContent::SpaceEvenly => if nf >= 1 {
            l / (nf + 1)
        } else {
            0
        },
    }
}

/// Main-axis cursor just before placing child `i`: the content-box start
/// plus the lead, advanced past every earlier flow child and one gap each.
pub open spec fn s_cursor(
    s: Seq<UiNode>,
    i: int,
    row: bool,
    ms: int,
    am: int,
    vw: int,
    vh: int,
    sc: int,
    free: int,
    tg: int,
    ts: int,
    lead: int,
    gap: int,
) -> int
    decreases i,
{
    if i <= 0 {
        s_clamp(ms + lead)
    } else {
        let prev = s_cursor(s, i - 1, row, ms, am, vw, vh, sc, free, tg, ts, lead, gap);
        if 0 <= i - 1 < s.len() && is_flow(s[i - 1]) {
            s_clamp(
                s_clamp(prev + s_outer_main(s[i - 1], row, am, vw, vh, sc, free, tg, ts)) + gap,
            )
        } else {
            prev
        }
    }
}

/// Resolved cross-axis size of a child: its preferred size, else a stretch
/// to the container's content box for flow children under `Stretch`
/// alignment, else the intrinsic size; then the min/max bounds.
pub open spec fn s_cross_size(
    c: UiNode,
    row: bool,
    ac: int,
    vw: int,
    vh: int,
    sc: int,
    align: AlignItems,
) -> int {
    let raw = if !val_is_auto(s_cross_val(c.style, row)) {
        s_resolve(s_cross_val(c.style, row), ac, vw, vh, sc)
    } else if is_flow(c) && align is Stretch {
        s_max0(
            s_clamp(
                s_clamp(ac - s_mclead(c, row, ac, vw, vh, sc)) - s_mctrail(c, row, ac, vw, vh, sc),
            ),
        )
    } else {
        s_intr_cross(c, row)
    };
    s_mm(
        if row {
            c.style.min_height
        } else {
            c.style.min_width
        },
        if row {
            c.style.max_height
        } else {
            c.style.max_width
        },
        s_max0(raw),
        ac,
        vw,
        vh,
        sc,
    )
}

/// Cross-axis offset of a flow child inside the content box under the
/// container's align-items policy.
pub open spec fn s_cross_off(
    c: UiNode,
    row: bool,
    ac: int,
    vw: int,
    vh: int,
    sc: int,
    align: AlignItems,
    cross: int,
) -> int {
    let oc = s_clamp(
        s_clamp(s_mclead(c, row, ac, vw, vh, sc) + cross) + s_mctrail(c, row, ac, vw, vh, sc),
    );
    match align {
        AlignItems::Start => 0,
        AlignItems::Stretch => 0,
        AlignItems::Center => s_max0(s_clamp(ac - oc)) / 2,
        AlignItems::End => s_max0(s_clamp(ac - oc)),
    }
}

/// A border-box rectangle from a position and a size, saturated.
pub open spec fn s_mk_rect(x: int, y: int, w: int, h: int) -> Rect {
    Rect {
        min_x: s_clamp(x) as i64,
        min_y: s_clamp(y) as i64,
        max_x: s_clamp(s_clamp(x) + w) as i64,
        max_y: s_clamp(s_clamp(y) + h) as i64,
    }
}

/// The layout of a `display: none` subtree: every rectangle is zero.
pub open spec fn s_zero_layout(n: UiNode) -> GLayout
    decreases n, 0int,
{
    GLayout {
        entity: n.entity,
        rect: s_mk_rect(0, 0, 0, 0),
        overflow: n.style.overflow,
        outline_width: n.outline_width,
        children: s_zero_children(n.children@, 0),
    }
}

/// Zero layouts of the subtrees `s[from..]`.
pub open spec fn s_zero_children(s: Seq<UiNode>, from: int) -> Seq<GLayout>
    decreases s, s.len() - from + 1,
{
    if from < 0 || from >= s.len() {
        Seq::empty()
    } else {
        seq![s_zero_layout(s[from])] + s_zero_children(s, from + 1)
    }
}

/// One resolved inset of the content box.
pub open spec fn s_pad(v: Val, basis: int, vw: int, vh: int, sc: int) -> int {
    s_max0(s_resolve(v, basis, vw, vh, sc))
}

/// Resolved geometry of child `s[i]` inside the content box
/// `(ix, iy, iw, ih)` of a container whose flex line has free space `free`,
/// weights `tg`/`ts` and spacing `lead`/`gap`.
pub open spec fn s_layout_child(
    s: Seq<UiNode>,
    i: int,
    row: bool,
    ix: int,
    iy: int,
    iw: int,
    ih: int,
    vw: int,
    vh: int,
    sc: int,
    free: int,
    tg: int,
    ts: int,
    lead: int,
    gap: int,
    align: AlignItems,
) -> GLayout
    decreases s, 0int,
{
    if !(0 <= i < s.len()) {
        GLayout {
            entity: 0,
            rect: s_mk_rect(0, 0, 0, 0),
            overflow: Overflow { x: crate::ui_node::OverflowAxis::Visible, y: crate::ui_node::OverflowAxis::Visible },
            outline_width: Val::Auto,
            children: Seq::empty(),
        }
    } else {
    let c = s[i];
    if c.style.display is Hidden {
        s_zero_layout(c)
    } else if c.style.position_type is Absolute {
        let aw = s_mm(
            c.style.min_width,
            c.style.max_width,
            s_max0(s_resolve_or(c.style.width, c.intrinsic_w as int, iw, vw, vh, sc)),
            iw,
            vw,
            vh,
            sc,
        );
        let ah = s_mm(
            c.style.min_height,
            c.style.max_height,
            s_max0(s_resolve_or(c.style.height, c.intrinsic_h as int, ih, vw, vh, sc)),
            ih,
            vw,
            vh,
            sc,
        );
        let ax = s_clamp(ix + s_resolve(c.style.left, iw, vw, vh, sc));
        let ay = s_clamp(iy + s_resolve(c.style.top, ih, vw, vh, sc));
        s_layout(c, ax, ay, aw, ah, vw, vh, sc)
    } else {
        let am = if row {
            iw
        } else {
            ih
        };
        let ac = if row {
            ih
        } else {
            iw
        };
        let ms = if row {
            ix
        } else {
            iy
        };
        let cs = if row {
            iy
        } else {
            ix
        };
        let main = s_main_size(c, row, am, vw, vh, sc, free, tg, ts);
        let cross = s_cross_size(c, row, ac, vw, vh, sc, align);
        let mp = s_clamp(
            s_cursor(s, i, row, ms, am, vw, vh, sc, free, tg, ts, lead, gap) + s_mlead(
                c,
                row,
                am,
                vw,
                vh,
                sc,
            ),
        );
        let cp = s_clamp(
            s_clamp(cs + s_cross_off(c, row, ac, vw, vh, sc, align, cross)) + s_mclead(
                c,
                row,
                ac,
                vw,
                vh,
                sc,
            ),
        );
        if row {
            s_layout(c, mp, cp, main, cross, vw, vh, sc)
        } else {
            s_layout(c, cp, mp, cross, main, vw, vh, sc)
        }
    }
    }
}

/// Resolved geometry of the children `s[from..]` of one container.
pub open spec fn s_layout_children(
    s: Seq<UiNode>,
    from: int,
    row: bool,
    ix: int,
    iy: int,
    iw: int,
    ih: int,
    vw: int,
    vh: int,
    sc: int,
    free: int,
    tg: int,
    ts: int,
    lead: int,
    gap: int,
    align: AlignItems,
) -> Seq<GLayout>
    decreases s, s.len() - from + 1,
{
    if from < 0 || from >= s.len() {
        Seq::empty()
    } else {
        seq![
            s_layout_child(
                s,
                from,
                row,
                ix,
                iy,
                iw,
                ih,
                vw,
                vh,
                sc,
                free,
                tg,
                ts,
                lead,
                gap,
                align,
            ),
        ] + s_layout_children(
            s,
            from + 1,
            row,
            ix,
            iy,
            iw,
            ih,
            vw,
            vh,
            sc,
            free,
            tg,
            ts,
            lead,
            gap,
            align,
        )
    }
}

/// Resolved geometry of the subtree rooted at `n`, given the node's own
/// border box `(x, y, w, h)`, the viewport `(vw, vh)` and the scale `sc`.
pub open spec fn s_layout(n: UiNode, x: int, y: int, w: int, h: int, vw: int, vh: int, sc: int) -> GLayout
    decreases n, n.children@.len() + 2,
{
    if n.style.display is Hidden {
        s_zero_layout(n)
    } else {
        let pl = s_pad(n.style.padding.left, w, vw, vh, sc);
        let pr = s_pad(n.style.padding.right, w, vw, vh, sc);
        let pt = s_pad(n.style.padding.top, h, vw, vh, sc);
        let pb = s_pad(n.style.padding.bottom, h, vw, vh, sc);
        let ix = s_clamp(x + pl);
        let iy = s_clamp(y + pt);
        let iw = s_max0(s_clamp(s_clamp(w - pl) - pr));
        let ih = s_max0(s_clamp(s_clamp(h - pt) - pb));
        let row = n.style.flex_direction is Row;
        let am = if row {
            iw
        } else {
            ih
        };
        let tg = s_sum_grow(n.children@, 0);
        let ts = s_sum_shrink(n.children@, 0);
        let free = s_clamp(am - s_sum_ob(n.children@, 0, row, am, vw, vh, sc));
        let used = s_sum_om(n.children@, 0, row, am, vw, vh, sc, free, tg, ts);
        let leftover = s_max0(s_clamp(am - used));
        let nf = s_count_flow(n.children@, 0);
        let lead = s_lead(n.style.justify_content, leftover, nf);
        let gap = s_gap(n.style.justify_content, leftover, nf);
        GLayout {
            entity: n.entity,
            rect: s_mk_rect(x, y, w, h),
            overflow: n.style.overflow,
            outline_width: n.outline_width,
            children: s_layout_children(
                n.children@,
                0,
                row,
                ix,
                iy,
                iw,
                ih,
                vw,
                vh,
                sc,
                free,
                tg,
                ts,
                lead,
                gap,
                n.style.align_items,
            ),
        }
    }
}

/// Resolved geometry of a whole root subtree laid out into the available
/// space `(aw, ah)` (also the viewport) at the origin, under scale `sc`.
/// The root's own size defaults to the available space.
pub open spec fn s_layout_root(n: UiNode, aw: int, ah: int, sc: int) -> GLayout {
    let rw = s_mm(
        n.style.min_width,
        n.style.max_width,
        s_max0(s_resolve_or(n.style.width, aw, aw, aw, ah, sc)),
        aw,
        aw,
        ah,
        sc,
    );
    let rh = s_mm(
        n.style.min_height,
        n.style.max_height,
        s_max0(s_resolve_or(n.style.height, ah, ah, aw, ah, sc)),
        ah,
        aw,
        ah,
        sc,
    );
    s_layout(n, 0, 0, rw, rh, aw, ah, sc)
}

/// Division of non-negative values, matching mathematical division.
fn div_nn(a: i64, b: i64) -> (r: i64)
    requires
        0 <= a,
        0 < b,
    ensures
        r as int == a as int / b as int,
        0 <= r <= a,
{
    let q = (a as u64) / (b as u64);
    q as i64
}

/// Resolves one length, `Auto` resolving to zero.
fn e_res(v: &Val, basis: i64, vw: i64, vh: i64, sc: i64) -> (r: i64)
    requires
        crate::geometry::val_wf(*v),
        in_coord(basis as int),
        in_coord(vw as int),
        in_coord(vh as int),
        0 <= sc <= FACTOR_LIMIT,
    ensures
        r as int == s_resolve(*v, basis as int, vw as int, vh as int, sc as int),
        in_coord(r as int),
{
    match resolve_val(v, basis, vw, vh, sc) {
        Option::Some(x) => x,
        Option::None => 0,
    }
}

/// Resolves one length with a fallback for `Auto`.
fn e_resolve_or(v: &Val, fallback: i64, basis: i64, vw: i64, vh: i64, sc: i64) -> (r: i64)
    requires
        crate::geometry::val_wf(*v),
        in_coord(fallback as int),
        in_coord(basis as int),
        in_coord(vw as int),
        in_coord(vh as int),
        0 <= sc <= FACTOR_LIMIT,
    ensures
        r as int == s_resolve_or(*v, fallback as int, basis as int, vw as int, vh as int, sc as int),
        in_coord(r as int),
{
    match resolve_val(v, basis, vw, vh, sc) {
        Option::Some(x) => x,
        Option::None => fallback,
    }
}

/// Applies the min/max bounds to a candidate size.
fn e_mm(vmin: &Val, vmax: &Val, f: i64, basis: i64, vw: i64, vh: i64, sc: i64) -> (r: i64)
    requires
        crate::geometry::val_wf(*vmin),
        crate::geometry::val_wf(*vmax),
        in_coord(f as int),
        in_coord(basis as int),
        in_coord(vw as int),
        in_coord(vh as int),
        0 <= sc <= FACTOR_LIMIT,
    ensures
        r as int == s_mm(
            *vmin,
            *vmax,
            f as int,
            basis as int,
            vw as int,
            vh as int,
            sc as int,
        ),
        0 <= r <= COORD_LIMIT,
{
    let mx = match resolve_val(vmax, basis, vw, vh, sc) {
        Option::Some(x) => cmax0(x),
        Option::None => COORD_LIMIT,
    };
    let mn = match resolve_val(vmin, basis, vw, vh, sc) {
        Option::Some(x) => cmax0(x),
        Option::None => 0,
    };
    let r = if f > mx {
        mx
    } else {
        f
    };
    if r < mn {
        mn
    } else {
        r
    }
}

/// Whether a node participates in sibling flow.
fn e_is_flow(c: &UiNode) -> (r: bool)
    ensures
        r == is_flow(*c),
{
    !matches!(c.style.display, Display::Hidden) && matches!(
        c.style.position_type,
        PositionType::Relative,
    )
}

/// One resolved padding inset.
fn e_pad(v: &Val, basis: i64, vw: i64, vh: i64, sc: i64) -> (r: i64)
    requires
        crate::geometry::val_wf(*v),
        in_coord(basis as int),
        in_coord(vw as int),
        in_coord(vh as int),
        0 <= sc <= FACTOR_LIMIT,
    ensures
        r as int == s_pad(*v, basis as int, vw as int, vh as int, sc as int),
        0 <= r <= COORD_LIMIT,
{
    cmax0(e_res(v, basis, vw, vh, sc))
}

/// Leading main-axis margin of a child.
fn e_mlead(c: &UiNode, row: bool, am: i64, vw: i64, vh: i64, sc: i64) -> (r: i64)
    requires
        style_wf(c.style),
        in_coord(am as int),
        in_coord(vw as int),
        in_coord(vh as int),
        0 <= sc <= FACTOR_LIMIT,
    ensures
        r as int == s_mlead(*c, row, am as int, vw as int, vh as int, sc as int),
        in_coord(r as int),
{
    if row {
        e_res(&c.style.margin.left, am, vw, vh, sc)
    } else {
        e_res(&c.style.margin.top, am, vw, vh, sc)
    }
}

/// Trailing main-axis margin of a child.
fn e_mtrail(c: &UiNode, row: bool, am: i64, vw: i64, vh: i64, sc: i64) -> (r: i64)
    requires
        style_wf(c.style),
        in_coord(am as int),
        in_coord(vw as int),
        in_coord(vh as int),
        0 <= sc <= FACTOR_LIMIT,
    ensures
        r as int == s_mtrail(*c, row, am as int, vw as int, vh as int, sc as int),
        in_coord(r as int),
{
    if row {
        e_res(&c.style.margin.right, am, vw, vh, sc)
    } else {
        e_res(&c.style.margin.bottom, am, vw, vh, sc)
    }
}

/// Leading cross-axis margin of a child.
fn e_mclead(c: &UiNode, row: bool, ac: i64, vw: i64, vh: i64, sc: i64) -> (r: i64)
    requires
        style_wf(c.style),
        in_coord(ac as int),
        in_coord(vw as int),
        in_coord(vh as int),
        0 <= sc <= FACTOR_LIMIT,
    ensures
        r as int == s_mclead(*c, row, ac as int, vw as int, vh as int, sc as int),
        in_coord(r as int),
{
    if row {
        e_res(&c.style.margin.top, ac, vw, vh, sc)
    } else {
        e_res(&c.style.margin.left, ac, vw, vh, sc)
    }
}

/// Trailing cross-axis margin of a child.
fn e_mctrail(c: &UiNode, row: bool, ac: i64, vw: i64, vh: i64, sc: i64) -> (r: i64)
    requires
        style_wf(c.style),
        in_coord(ac as int),
        in_coord(vw as int),
        in_coord(vh as int),
        0 <= sc <= FACTOR_LIMIT,
    ensures
        r as int == s_mctrail(*c, row, ac as int, vw as int, vh as int, sc as int),
        in_coord(r as int),
{
    if row {
        e_res(&c.style.margin.bottom, ac, vw, vh, sc)
    } else {
        e_res(&c.style.margin.right, ac, vw, vh, sc)
    }
}

/// Main-axis basis of a child.
fn e_basis(c: &UiNode, row: bool, am: i64, vw: i64, vh: i64, sc: i64) -> (r: i64)
    requires
        style_wf(c.style),
        0 <= c.intrinsic_w <= COORD_LIMIT,
        0 <= c.intrinsic_h <= COORD_LIMIT,
        in_coord(am as int),
        in_coord(vw as int),
        in_coord(vh as int),
        0 <= sc <= FACTOR_LIMIT,
    ensures
        r as int == s_basis(*c, row, am as int, vw as int, vh as int, sc as int),
        0 <= r <= COORD_LIMIT,
{
    let intr = if row {
        c.intrinsic_w
    } else {
        c.intrinsic_h
    };
    let pref = if row {
        e_resolve_or(&c.style.width, intr, am, vw, vh, sc)
    } else {
        e_resolve_or(&c.style.height, intr, am, vw, vh, sc)
    };
    cmax0(e_resolve_or(&c.style.flex_basis, pref, am, vw, vh, sc))
}

/// Basis plus main-axis margins of a child.
fn e_outer_basis(c: &UiNode, row: bool, am: i64, vw: i64, vh: i64, sc: i64) -> (r: i64)
    requires
        style_wf(c.style),
        0 <= c.intrinsic_w <= COORD_LIMIT,
        0 <= c.intrinsic_h <= COORD_LIMIT,
        in_coord(am as int),
        in_coord(vw as int),
        in_coord(vh as int),
        0 <= sc <= FACTOR_LIMIT,
    ensures
        r as int == s_outer_basis(*c, row, am as int, vw as int, vh as int, sc as int),
        in_coord(r as int),
{
    cadd(
        cadd(e_mlead(c, row, am, vw, vh, sc), e_basis(c, row, am, vw, vh, sc)),
        e_mtrail(c, row, am, vw, vh, sc),
    )
}

/// Resolved main-axis size of a flow child.
fn e_main_size(
    c: &UiNode,
    row: bool,
    am: i64,
    vw: i64,
    vh: i64,
    sc: i64,
    free: i64,
    tg: i64,
    ts: i64,
) -> (r: i64)
    requires
        style_wf(c.style),
        0 <= c.intrinsic_w <= COORD_LIMIT,
        0 <= c.intrinsic_h <= COORD_LIMIT,
        in_coord(am as int),
        in_coord(vw as int),
        in_coord(vh as int),
        0 <= sc <= FACTOR_LIMIT,
        in_coord(free as int),
        0 <= tg,
        0 <= ts,
    ensures
        r as int == s_main_size(
            *c,
            row,
            am as int,
            vw as int,
            vh as int,
            sc as int,
            free as int,
            tg as int,
            ts as int,
        ),
        0 <= r <= COORD_LIMIT,
{
    let base = e_basis(c, row, am, vw, vh, sc);
    let flexed = if free > 0 && tg > 0 {
        proof {
            assert(free * c.style.flex_grow <= COORD_LIMIT * FACTOR_LIMIT && 0 <= free
                * c.style.flex_grow) by (nonlinear_arith)
                requires
                    0 < free <= COORD_LIMIT,
                    0 <= c.style.flex_grow <= FACTOR_LIMIT,
            ;
        }
        let p = div_nn(free * c.style.flex_grow, tg);
        let p = if p > COORD_LIMIT {
            COORD_LIMIT
        } else {
            p
        };
        cadd(base, p)
    } else if free < 0 && ts > 0 {
        proof {
            assert((-free) * c.style.flex_shrink <= COORD_LIMIT * FACTOR_LIMIT && 0 <= (-free)
                * c.style.flex_shrink) by (nonlinear_arith)
                requires
                    0 < -free <= COORD_LIMIT,
                    0 <= c.style.flex_shrink <= FACTOR_LIMIT,
            ;
        }
        let p = div_nn((-free) * c.style.flex_shrink, ts);
        let p = if p > COORD_LIMIT {
            COORD_LIMIT
        } else {
            p
        };
        cmax0(csub(base, p))
    } else {
        base
    };
    if row {
        e_mm(&c.style.min_width, &c.style.max_width, flexed, am, vw, vh, sc)
    } else {
        e_mm(&c.style.min_height, &c.style.max_height, flexed, am, vw, vh, sc)
    }
}

/// Resolved main size plus main-axis margins of a flow child.
fn e_outer_main(
    c: &UiNode,
    row: bool,
    am: i64,
    vw: i64,
    vh: i64,
    sc: i64,
    free: i64,
    tg: i64,
    ts: i64,
) -> (r: i64)
    requires
        style_wf(c.style),
        0 <= c.intrinsic_w <= COORD_LIMIT,
        0 <= c.intrinsic_h <= COORD_LIMIT,
        in_coord(am as int),
        in_coord(vw as int),
        in_coord(vh as int),
        0 <= sc <= FACTOR_LIMIT,
        in_coord(free as int),
        0 <= tg,
        0 <= ts,
    ensures
        r as int == s_outer_main(
            *c,
            row,
            am as int,
            vw as int,
            vh as int,
            sc as int,
            free as int,
            tg as int,
            ts as int,
        ),
        in_coord(r as int),
{
    cadd(
        cadd(
            e_mlead(c, row, am, vw, vh, sc),
            e_main_size(c, row, am, vw, vh, sc, free, tg, ts),
        ),
        e_mtrail(c, row, am, vw, vh, sc),
    )
}

/// Resolved cross-axis size of a child.
fn e_cross_size(
    c: &UiNode,
    row: bool,
    ac: i64,
    vw: i64,
    vh: i64,
    sc: i64,
    align: AlignItems,
) -> (r: i64)
    requires
        style_wf(c.style),
        0 <= c.intrinsic_w <= COORD_LIMIT,
        0 <= c.intrinsic_h <= COORD_LIMIT,
        in_coord(ac as int),
        in_coord(vw as int),
        in_coord(vh as int),
        0 <= sc <= FACTOR_LIMIT,
    ensures
        r as int == s_cross_size(*c, row, ac as int, vw as int, vh as int, sc as int, align),
        0 <= r <= COORD_LIMIT,
{
    let cval = if row {
        c.style.height
    } else {
        c.style.width
    };
    let raw = match resolve_val(&cval, ac, vw, vh, sc) {
        Option::Some(x) => x,
        Option::None => if e_is_flow(c) && matches!(align, AlignItems::Stretch) {
            cmax0(
                csub(csub(ac, e_mclead(c, row, ac, vw, vh, sc)), e_mctrail(c, row, ac, vw, vh, sc)),
            )
        } else {
            if row {
                c.intrinsic_h
            } else {
                c.intrinsic_w
            }
        },
    };
    if row {
        e_mm(&c.style.min_height, &c.style.max_height, cmax0(raw), ac, vw, vh, sc)
    } else {
        e_mm(&c.style.min_width, &c.style.max_width, cmax0(raw), ac, vw, vh, sc)
    }
}

/// Cross-axis offset of a flow child.
fn e_cross_off(
    c: &UiNode,
    row: bool,
    ac: i64,
    vw: i64,
    vh: i64,
    sc: i64,
    align: AlignItems,
    cross: i64,
) -> (r: i64)
    requires
        style_wf(c.style),
        in_coord(ac as int),
        in_coord(vw as int),
        in_coord(vh as int),
        0 <= sc <= FACTOR_LIMIT,
        in_coord(cross as int),
    ensures
        r as int == s_cross_off(
            *c,
            row,
            ac as int,
            vw as int,
            vh as int,
            sc as int,
            align,
            cross as int,
        ),
        in_coord(r as int),
{
    let oc = cadd(
        cadd(e_mclead(c, row, ac, vw, vh, sc), cross),
        e_mctrail(c, row, ac, vw, vh, sc),
    );
    match align {
        AlignItems::Start => 0,
        AlignItems::Stretch => 0,
        AlignItems::Center => div_nn(cmax0(csub(ac, oc)), 2),
        AlignItems::End => cmax0(csub(ac, oc)),
    }
}

/// Lead before the first flow child under the justify-content policy.
fn e_lead(j: JustifyContent, l: i64, nf: i64) -> (r: i64)
    requires
        0 <= l <= COORD_LIMIT,
        0 <= nf <= COORD_LIMIT,
    ensures
        r as int == s_lead(j, l as int, nf as int),
        0 <= r <= COORD_LIMIT,
{
    match j {
        JustifyContent::Start => 0,
        JustifyContent::Center => div_nn(l, 2),
        JustifyContent::End => l,
        JustifyContent::SpaceBetween => 0,
        JustifyContent::SpaceAround => if nf >= 1 {
            div_nn(div_nn(l, nf), 2)
        } else {
            0
        },
        JustifyContent::SpaceEvenly => if nf >= 1 {
            div_nn(l, nf + 1)
        } else {
            0
        },
    }
}

/// Gap between consecutive flow children under the justify-content policy.
fn e_gap(j: JustifyContent, l: i64, nf: i64) -> (r: i64)
    requires
        0 <= l <= COORD_LIMIT,
        0 <= nf <= COORD_LIMIT,
    ensures
        r as int == s_gap(j, l as int, nf as int),
        0 <= r <= COORD_LIMIT,
{
    match j {
        JustifyContent::Start => 0,
        JustifyContent::Center => 0,
        JustifyContent::End => 0,
        JustifyContent::SpaceBetween => if nf >= 2 {
            div_nn(l, nf - 1)
        } else {
            0
        },
        JustifyContent::SpaceAround => if nf >= 1 {
            div_nn(l, nf)
        } else {
            0
        },
        JustifyContent::SpaceEvenly => if nf >= 1 {
            div_nn(l, nf + 1)
        } else {
            0
        },
    }
}

/// A forest whose members model the zero layouts of `cs`, positionwise,
/// models `s_zero_children` as a whole.
proof fn lemma_zero_children_eq(cs: Seq<UiNode>, ks: Seq<LayoutNode>, from: int)
    requires
        ks.len() == cs.len(),
        0 <= from <= cs.len(),
        forall|k: int| 0 <= k < cs.len() ==> lv(#[trigger] ks[k]) == s_zero_layout(cs[k]),
    ensures
        lv_seq(ks, from) == s_zero_children(cs, from),
    decreases cs.len() - from,
{
    if from < cs.len() {
        lemma_zero_children_eq(cs, ks, from + 1);
        assert(lv_seq(ks, from) =~= s_zero_children(cs, from));
    } else {
        assert(lv_seq(ks, from) =~= s_zero_children(cs, from));
    }
}

/// Lays out a `display: none` subtree: everything zero.
fn zero_rec(n: &UiNode) -> (out: LayoutNode)
    ensures
        lv(out) == s_zero_layout(*n),
    decreases *n,
{
    let mut kids: Vec<LayoutNode> = Vec::new();
    let mut i: usize = 0;
    while i < n.children.len()
        invariant
            0 <= i <= n.children@.len(),
            kids@.len() == i,
            forall|k: int|
                0 <= k < i ==> lv(#[trigger] kids@[k]) == s_zero_layout(n.children@[k]),
        decreases n.children@.len() - i,
    {
        let child = zero_rec(&n.children[i]);
        kids.push(child);
        i = i + 1;
    }
    proof {
        lemma_zero_children_eq(n.children@, kids@, 0);
    }
    LayoutNode {
        entity: n.entity,
        rect: Rect { min_x: 0, min_y: 0, max_x: 0, max_y: 0 },
        overflow: n.style.overflow,
        outline_width: n.outline_width,
        children: kids,
    }
}

/// A forest whose members model the resolved child layouts of `cs`,
/// positionwise, models `s_layout_children` as a whole.
proof fn lemma_layout_children_eq(
    cs: Seq<UiNode>,
    ks: Seq<LayoutNode>,
    from: int,
    row: bool,
    ix: int,
    iy: int,
    iw: int,
    ih: int,
    vw: int,
    vh: int,
    sc: int,
    free: int,
    tg: int,
    ts: int,
    lead: int,
    gap: int,
    align: AlignItems,
)
    requires
        ks.len() == cs.len(),
        0 <= from <= cs.len(),
        forall|k: int|
            0 <= k < cs.len() ==> lv(#[trigger] ks[k]) == s_layout_child(
                cs,
                k,
                row,
                ix,
                iy,
                iw,
                ih,
                vw,
                vh,
                sc,
                free,
                tg,
                ts,
                lead,
                gap,
                align,
            ),
    ensures
        lv_seq(ks, from) == s_layout_children(
            cs,
            from,
            row,
            ix,
            iy,
            iw,
            ih,
            vw,
            vh,
            sc,
            free,
            tg,
            ts,
            lead,
            gap,
            align,
        ),
    decreases cs.len() - from,
{
    if from < cs.len() {
        lemma_layout_children_eq(
            cs,
            ks,
            from + 1,
            row,
            ix,
            iy,
            iw,
            ih,
            vw,
            vh,
            sc,
            free,
            tg,
            ts,
            lead,
            gap,
            align,
        );
        assert(lv_seq(ks, from) =~= s_layout_children(
            cs,
            from,
            row,
            ix,
            iy,
            iw,
            ih,
            vw,
            vh,
            sc,
            free,
            tg,
            ts,
            lead,
            gap,
            align,
        ));
    } else {
        assert(lv_seq(ks, from) =~= s_layout_children(
            cs,
            from,
            row,
            ix,
            iy,
            iw,
            ih,
            vw,
            vh,
            sc,
            free,
            tg,
            ts,
            lead,
            gap,
            align,
        ));
    }
}

/// Lays out the subtree rooted at `n` into its resolved border box.
#[verifier::rlimit(100)]
#[verifier::loop_isolation(true)]
fn layout_rec(n: &UiNode, x: i64, y: i64, w: i64, h: i64, vw: i64, vh: i64, sc: i64) -> (out:
    LayoutNode)
    requires
        wf_tree(*n),
        in_coord(x as int),
        in_coord(y as int),
        0 <= w <= COORD_LIMIT,
        0 <= h <= COORD_LIMIT,
        0 <= vw <= COORD_LIMIT,
        0 <= vh <= COORD_LIMIT,
        0 <= sc <= FACTOR_LIMIT,
    ensures
        lv(out) == s_layout(*n, x as int, y as int, w as int, h as int, vw as int, vh as int, sc as int),
    decreases *n,
{
    if matches!(n.style.display, Display::Hidden) {
        return zero_rec(n);
    }
    let pl = e_pad(&n.style.padding.left, w, vw, vh, sc);
    let pr = e_pad(&n.style.padding.right, w, vw, vh, sc);
    let pt = e_pad(&n.style.padding.top, h, vw, vh, sc);
    let pb = e_pad(&n.style.padding.bottom, h, vw, vh, sc);
    let ix = cadd(x, pl);
    let iy = cadd(y, pt);
    let iw = cmax0(csub(csub(w, pl), pr));
    let ih = cmax0(csub(csub(h, pt), pb));
    let row = matches!(n.style.flex_direction, FlexDirection::Row);
    let am = if row {
        iw
    } else {
        ih
    };
    let ac = if row {
        ih
    } else {
        iw
    };
    let ghost cs = n.children@;
    // Aggregate the flex line: total weights, free space, used space, count.
    let mut tg: i64 = 0;
    let mut ts: i64 = 0;
    let mut sob: i64 = 0;
    let mut i: usize = n.children.len();
    while i > 0
        invariant
            0 <= i <= cs.len(),
            cs == n.children@,
            wf_forest(cs, 0),
            in_coord(am as int),
            0 <= vw <= COORD_LIMIT,
            0 <= vh <= COORD_LIMIT,
            0 <= sc <= FACTOR_LIMIT,
            tg as int == s_sum_grow(cs, i as int),
            ts as int == s_sum_shrink(cs, i as int),
            sob as int == s_sum_ob(cs, i as int, row, am as int, vw as int, vh as int, sc as int),
            0 <= tg <= COORD_LIMIT,
            0 <= ts <= COORD_LIMIT,
            in_coord(sob as int),
        decreases i,
    {
        i = i - 1;
        proof {
            lemma_wf_forest_index(cs, 0, i as int);
        }
        let c = &n.children[i];
        if e_is_flow(c) {
            tg = cadd(c.style.flex_grow, tg);
            ts = cadd(c.style.flex_shrink, ts);
            sob = cadd(e_outer_basis(c, row, am, vw, vh, sc), sob);
        }
    }
    let free = csub(am, sob);
    let mut used: i64 = 0;
    let mut nf: i64 = 0;
    let mut i2: usize = n.children.len();
    while i2 > 0
        invariant
            0 <= i2 <= cs.len(),
            cs == n.children@,
            wf_forest(cs, 0),
            in_coord(am as int),
            0 <= vw <= COORD_LIMIT,
            0 <= vh <= COORD_LIMIT,
            0 <= sc <= FACTOR_LIMIT,
            0 <= tg,
            0 <= ts,
            in_coord(free as int),
            free as int == s_clamp(am - s_sum_ob(cs, 0, row, am as int, vw as int, vh as int, sc as int)),
            used as int == s_sum_om(
                cs,
                i2 as int,
                row,
                am as int,
                vw as int,
                vh as int,
                sc as int,
                free as int,
                tg as int,
                ts as int,
            ),
            nf as int == s_count_flow(cs, i2 as int),
            in_coord(used as int),
            0 <= nf <= COORD_LIMIT,
        decreases i2,
    {
        i2 = i2 - 1;
        proof {
            lemma_wf_forest_index(cs, 0, i2 as int);
        }
        let c = &n.children[i2];
        if e_is_flow(c) {
            used = cadd(e_outer_main(c, row, am, vw, vh, sc, free, tg, ts), used);
            nf = cadd(1, nf);
        }
    }
    let leftover = cmax0(csub(am, used));
    let lead = e_lead(n.style.justify_content, leftover, nf);
    let gap = e_gap(n.style.justify_content, leftover, nf);
    let ms = if row {
        ix
    } else {
        iy
    };
    let cstart = if row {
        iy
    } else {
        ix
    };
    let align = n.style.align_items;
    let mut kids: Vec<LayoutNode> = Vec::new();
    let mut cur: i64 = cadd(ms, lead);
    let mut j: usize = 0;
    while j < n.children.len()
        invariant
            0 <= j <= cs.len(),
            cs == n.children@,
            wf_forest(cs, 0),
            0 <= tg,
            0 <= ts,
            in_coord(free as int),
            0 <= vw <= COORD_LIMIT,
            0 <= vh <= COORD_LIMIT,
            0 <= sc <= FACTOR_LIMIT,
            in_coord(ix as int),
            in_coord(iy as int),
            0 <= iw <= COORD_LIMIT,
            0 <= ih <= COORD_LIMIT,
            am == if row { iw } else { ih },
            ac == if row { ih } else { iw },
            ms == if row { ix } else { iy },
            cstart == if row { iy } else { ix },
            align == n.style.align_items,
            0 <= lead <= COORD_LIMIT,
            0 <= gap <= COORD_LIMIT,
            kids@.len() == j,
            cur as int == s_cursor(
                cs,
                j as int,
                row,
                ms as int,
                am as int,
                vw as int,
                vh as int,
                sc as int,
                free as int,
                tg as int,
                ts as int,
                lead as int,
                gap as int,
            ),
            in_coord(cur as int),
            forall|k: int|
                0 <= k < j ==> lv(#[trigger] kids@[k]) == s_layout_child(
                    cs,
                    k,
                    row,
                    ix as int,
                    iy as int,
                    iw as int,
                    ih as int,
                    vw as int,
                    vh as int,
                    sc as int,
                    free as int,
                    tg as int,
                    ts as int,
                    lead as int,
                    gap as int,
                    align,
                ),
        decreases cs.len() - j,
    {
        proof {
            lemma_wf_forest_index(cs, 0, j as int);
        }
        let c = &n.children[j];
        let ghost goal = s_layout_child(
            cs,
            j as int,
            row,
            ix as int,
            iy as int,
            iw as int,
            ih as int,
            vw as int,
            vh as int,
            sc as int,
            free as int,
            tg as int,
            ts as int,
            lead as int,
            gap as int,
            align,
        );
        if matches!(c.style.display, Display::Hidden) {
            let child = zero_rec(c);
            proof {
                assert(goal == s_zero_layout(cs[j as int]));
                assert(lv(child) == goal);
            }
            kids.push(child);
        } else if matches!(c.style.position_type, PositionType::Absolute) {
            let intr_w = c.intrinsic_w;
            let intr_h = c.intrinsic_h;
            let aw = e_mm(
                &c.style.min_width,
                &c.style.max_width,
                cmax0(e_resolve_or(&c.style.width, intr_w, iw, vw, vh, sc)),
                iw,
                vw,
                vh,
                sc,
            );
            let ah = e_mm(
                &c.style.min_height,
                &c.style.max_height,
                cmax0(e_resolve_or(&c.style.height, intr_h, ih, vw, vh, sc)),
                ih,
                vw,
                vh,
                sc,
            );
            let ax = cadd(ix, e_res(&c.style.left, iw, vw, vh, sc));
            let ay = cadd(iy, e_res(&c.style.top, ih, vw, vh, sc));
            let child = layout_rec(c, ax, ay, aw, ah, vw, vh, sc);
            proof {
                assert(goal == s_layout(
                    cs[j as int],
                    ax as int,
                    ay as int,
                    aw as int,
                    ah as int,
                    vw as int,
                    vh as int,
                    sc as int,
                ));
                assert(lv(child) == goal);
            }
            kids.push(child);
        } else {
            let main = e_main_size(c, row, am, vw, vh, sc, free, tg, ts);
            let cross = e_cross_size(c, row, ac, vw, vh, sc, align);
            let mp = cadd(cur, e_mlead(c, row, am, vw, vh, sc));
            let cp = cadd(
                cadd(cstart, e_cross_off(c, row, ac, vw, vh, sc, align, cross)),
                e_mclead(c, row, ac, vw, vh, sc),
            );
            let child = if row {
                layout_rec(c, mp, cp, main, cross, vw, vh, sc)
            } else {
                layout_rec(c, cp, mp, cross, main, vw, vh, sc)
            };
            proof {
                if row {
                    assert(goal == s_layout(
                        cs[j as int],
                        mp as int,
                        cp as int,
                        main as int,
                        cross as int,
                        vw as int,
                        vh as int,
                        sc as int,
                    ));
                } else {
                    assert(goal == s_layout(
                        cs[j as int],
                        cp as int,
                        mp as int,
                        cross as int,
                        main as int,
                        vw as int,
                        vh as int,
                        sc as int,
                    ));
                }
                assert(lv(child) == goal);
            }
            kids.push(child);
            cur = cadd(cadd(cur, e_outer_main(c, row, am, vw, vh, sc, free, tg, ts)), gap);
        }
        j = j + 1;
    }
    proof {
        lemma_layout_children_eq(
            cs,
            kids@,
            0,
            row,
            ix as int,
            iy as int,
            iw as int,
            ih as int,
            vw as int,
            vh as int,
            sc as int,
            free as int,
            tg as int,
            ts as int,
            lead as int,
            gap as int,
            align,
        );
    }
    let out = LayoutNode {
        entity: n.entity,
        rect: Rect { min_x: x, min_y: y, max_x: cadd(x, w), max_y: cadd(y, h) },
        overflow: n.style.overflow,
        outline_width: n.outline_width,
        children: kids,
    };
    proof {
        assert(out.rect == s_mk_rect(x as int, y as int, w as int, h as int));
    }
    out
}

/// The layout pass: resolves geometry for every node of the root's
/// subtree into the available space `(avail_w, avail_h)` under the global
/// scale factor. Deterministic: the result equals `s_layout_root` of the
/// inputs alone.
pub fn ui_layout_system(root: &UiNode, avail_w: i64, avail_h: i64, scale: &UiScale) -> (out:
    LayoutNode)
    requires
        wf_tree(*root),
        0 <= avail_w <= COORD_LIMIT,
        0 <= avail_h <= COORD_LIMIT,
        ui_scale_wf(*scale),
    ensures
        lv(out) == s_layout_root(*root, avail_w as int, avail_h as int, scale.0 as int),
{
    let sc = scale.0;
    let rw = e_mm(
        &root.style.min_width,
        &root.style.max_width,
        cmax0(e_resolve_or(&root.style.width, avail_w, avail_w, avail_w, avail_h, sc)),
        avail_w,
        avail_w,
        avail_h,
        sc,
    );
    let rh = e_mm(
        &root.style.min_height,
        &root.style.max_height,
        cmax0(e_resolve_or(&root.style.height, avail_h, avail_h, avail_w, avail_h, sc)),
        avail_h,
        avail_w,
        avail_h,
        sc,
    );
    layout_rec(root, 0, 0, rw, rh, avail_w, avail_h, sc)
}

/// Every rectangle in a resolved subtree model is the zero rectangle.
pub open spec fn all_zero(g: GLayout) -> bool
    decreases g, 0int,
{
    g.rect == s_mk_rect(0, 0, 0, 0) && all_zero_seq(g.children, 0)
}

/// Zero-ness of the model forest `s[from..]`.
pub open spec fn all_zero_seq(s: Seq<GLayout>, from: int) -> bool
    decreases s, s.len() - from + 1,
{
    if from < 0 || from >= s.len() {
        true
    } else {
        all_zero(s[from]) && all_zero_seq(s, from + 1)
    }
}

/// The zero layout is all-zero.
proof fn lemma_zero_layout_all_zero(n: UiNode)
    ensures
        all_zero(s_zero_layout(n)),
    decreases n, 1int,
{
    lemma_zero_children_all_zero(n.children@, 0);
}

/// Zero layouts of a forest are all-zero.
proof fn lemma_zero_children_all_zero(s: Seq<UiNode>, from: int)
    ensures
        all_zero_seq(s_zero_children(s, from), 0),
    decreases s, s.len() - from + 2,
{
    if 0 <= from < s.len() {
        lemma_zero_layout_all_zero(s[from]);
        lemma_zero_children_all_zero(s, from + 1);
        lemma_all_zero_seq_cons(s_zero_layout(s[from]), s_zero_children(s, from + 1));
    }
}

/// Prepending an all-zero model to an all-zero forest keeps it all-zero.
proof fn lemma_all_zero_seq_cons(g: GLayout, rest: Seq<GLayout>)
    requires
        all_zero(g),
        all_zero_seq(rest, 0),
    ensures
        all_zero_seq(seq![g] + rest, 0),
    decreases rest.len(),
{
    let s = seq![g] + rest;
    assert(s[0] == g);
    lemma_all_zero_shift(rest, s, 0);
}

/// All-zero-ness of a forest tail transfers along a one-slot shift.
proof fn lemma_all_zero_shift(rest: Seq<GLayout>, s: Seq<GLayout>, from: int)
    requires
        0 <= from <= rest.len(),
        s.len() == rest.len() + 1,
        forall|i: int| 0 <= i < rest.len() ==> s[i + 1] == rest[i],
        all_zero_seq(rest, from),
    ensures
        all_zero_seq(s, from + 1),
    decreases rest.len() - from,
{
    if from < rest.len() {
        assert(s[from + 1] == rest[from]);
        lemma_all_zero_shift(rest, s, from + 1);
    }
}

/// A node with `display: none` resolves, with its whole subtree, to zero
/// size, wherever it is laid out.
pub proof fn lemma_hidden_zero_size(n: UiNode, x: int, y: int, w: int, h: int, vw: int, vh: int, sc: int)
    requires
        n.style.display is Hidden,
    ensures
        all_zero(s_layout(n, x, y, w, h, vw, vh, sc)),
{
    lemma_zero_layout_all_zero(n);
}

/// Running the layout pass twice with no intervening style or tree change
/// yields identical geometry: the pass is a pure function of the tree, the
/// available space and the scale, so two runs on the same inputs agree.
pub proof fn lemma_layout_idempotent(
    n: UiNode,
    aw: int,
    ah: int,
    sc: int,
    first: GLayout,
    second: GLayout,
)
    requires
        first == s_layout_root(n, aw, ah, sc),
        second == s_layout_root(n, aw, ah, sc),
    ensures
        first == second,
{
}

} // verus!
