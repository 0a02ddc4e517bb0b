//! The style record and the UI node tree: the retained, layout-facing
//! mirror of the scene graph. Style translation is total: `sanitize_style`
//! clamps any out-of-range value to the nearest valid one instead of
//! failing, and leaves a well-formed style unchanged.
use vstd::prelude::*;

use crate::geometry::{
    in_coord, ui_rect_wf, val_wf, COORD_LIMIT, FACTOR_LIMIT, UiRect, Val,
};

verus! {

/// How a node participates in layout.
#[derive(Clone, Copy, Debug, PartialEq, Eq, Structural)]
pub enum Display {
    /// The node lays out as a flex container.
    Flex,
    /// `display: none`: the node and its whole subtree take no space,
    /// paint nothing and are excluded from the UI stack.
    Hidden,
}

/// Whether a node follows the flow of its siblings or positions itself.
#[derive(Clone, Copy, Debug, PartialEq, Eq, Structural)]
pub enum PositionType {
    Relative,
    Absolute,
}

/// The main axis of a flex container.
#[derive(Clone, Copy, Debug, PartialEq, Eq, Structural)]
pub enum FlexDirection {
    Row,
    Column,
}

/// Distribution of leftover main-axis space among flow children.
#[derive(Clone, Copy, Debug, PartialEq, Eq, Structural)]
pub enum JustifyContent {
    Start,
    Center,
    End,
    SpaceBetween,
    SpaceAround,
    SpaceEvenly,
}

/// Cross-axis placement of flow children.
#[derive(Clone, Copy, Debug, PartialEq, Eq, Structural)]
pub enum AlignItems {
    Start,
    Center,
    End,
    Stretch,
}

/// Whether one axis of a node clips its descendants.
#[derive(Clone, Copy, Debug, PartialEq, Eq, Structural)]
pub enum OverflowAxis {
    Visible,
    Clip,
}

/// Per-axis overflow behaviour.
#[derive(Clone, Copy, Debug, PartialEq, Eq, Structural)]
pub struct Overflow {
    pub x: OverflowAxis,
    pub y: OverflowAxis,
}

/// Whether a node blocks pointer hit-testing for nodes painted below it.
#[derive(Clone, Copy, Debug, PartialEq, Eq, Structural)]
pub enum FocusPolicy {
    /// The node consumes the pointer: nothing painted below it can be hit.
    Block,
    /// The node is transparent to hit-testing.
    Pass,
}

/// Pointer interaction state of one node. At most one node is `Hovered`
/// or `Pressed` in a frame: the topmost blocking node under the pointer.
#[derive(Clone, Copy, Debug, PartialEq, Eq, Structural)]
pub enum Interaction {
    /// The node is the topmost hit and the primary button is down.
    Pressed,
    /// The node is the topmost hit and the primary button is up.
    Hovered,
    /// The node is not the topmost hit this frame.
    Idle,
}

/// The full per-node style record consumed by the layout pass.
#[derive(Clone, Copy, Debug, PartialEq, Eq, Structural)]
pub struct Style {
    pub display: Display,
    pub position_type: PositionType,
    pub flex_direction: FlexDirection,
    pub justify_content: JustifyContent,
    pub align_items: AlignItems,
    /// Preferred size; `Auto` falls back to the flex basis or content size.
    pub width: Val,
    pub height: Val,
    /// Lower size bound applied after flexible sizing; `Auto` means none.
    pub min_width: Val,
    pub min_height: Val,
    /// Upper size bound applied after flexible sizing; `Auto` means none.
    pub max_width: Val,
    pub max_height: Val,
    /// Main-axis starting size before growing or shrinking.
    pub flex_basis: Val,
    /// Weight for distributing positive leftover main-axis space.
    pub flex_grow: i64,
    /// Weight for absorbing a main-axis deficit.
    pub flex_shrink: i64,
    /// Outer spacing; `Auto` resolves to zero.
    pub margin: UiRect,
    /// Inner spacing between the node's edge and its content box.
    pub padding: UiRect,
    /// Horizontal inset of an absolutely positioned node; `Auto` is zero.
    pub left: Val,
    /// Vertical inset of an absolutely positioned node; `Auto` is zero.
    pub top: Val,
    /// Which axes of this node clip its descendants.
    pub overflow: Overflow,
}

/// A well-formed style: every length and weight is in range.
pub open spec fn style_wf(s: Style) -> bool {
    &&& val_wf(s.width)
    &&& val_wf(s.height)
    &&& val_wf(s.min_width)
    &&& val_wf(s.min_height)
    &&& val_wf(s.max_width)
    &&& val_wf(s.max_height)
    &&& val_wf(s.flex_basis)
    &&& 0 <= s.flex_grow <= FACTOR_LIMIT
    &&& 0 <= s.flex_shrink <= FACTOR_LIMIT
    &&& ui_rect_wf(s.margin)
    &&& ui_rect_wf(s.padding)
    &&& val_wf(s.left)
    &&& val_wf(s.top)
}

impl Default for Style {
    /// A flex row that sizes to content, with no spacing, no clipping and
    /// no flexible growth.
    fn default() -> (r: Self)
        ensures
            style_wf(r),
            r.display == Display::Flex,
            r.position_type == PositionType::Relative,
            r.flex_direction == FlexDirection::Row,
            r.justify_content == JustifyContent::Start,
            r.align_items == AlignItems::Stretch,
            r.width == Val::Auto && r.height == Val::Auto,
            r.min_width == Val::Auto && r.min_height == Val::Auto,
            r.max_width == Val::Auto && r.max_height == Val::Auto,
            r.flex_basis == Val::Auto,
            r.flex_grow == 0 && r.flex_shrink == 0,
            r.left == Val::Auto && r.top == Val::Auto,
            r.overflow == (Overflow { x: OverflowAxis::Visible, y: OverflowAxis::Visible }),
    {
        Style {
            display: Display::Flex,
            position_type: PositionType::Relative,
            flex_direction: FlexDirection::Row,
            justify_content: JustifyContent::Start,
            align_items: AlignItems::Stretch,
            width: Val::Auto,
            height: Val::Auto,
            min_width: Val::Auto,
            min_height: Val::Auto,
            max_width: Val::Auto,
            max_height: Val::Auto,
            flex_basis: Val::Auto,
            flex_grow: 0,
            flex_shrink: 0,
            margin: UiRect {
                left: Val::Px(0),
                right: Val::Px(0),
                top: Val::Px(0),
                bottom: Val::Px(0),
            },
            padding: UiRect {
                left: Val::Px(0),
                right: Val::Px(0),
                top: Val::Px(0),
                bottom: Val::Px(0),
            },
            left: Val::Auto,
            top: Val::Auto,
            overflow: Overflow { x: OverflowAxis::Visible, y: OverflowAxis::Visible },
        }
    }
}

/// The nearest well-formed length to `v`: payloads are clamped into the
/// range their unit allows.
pub open spec fn s_clamp_val(v: Val) -> Val {
    match v {
        Val::Auto => Val::Auto,
        Val::Px(p) => Val::Px(clamp_to(p as int, COORD_LIMIT as int) as i64),
        Val::Percent(p) => Val::Percent(clamp_to(p as int, FACTOR_LIMIT as int) as i64),
        Val::Vw(p) => Val::Vw(clamp_to(p as int, FACTOR_LIMIT as int) as i64),
        Val::Vh(p) => Val::Vh(clamp_to(p as int, FACTOR_LIMIT as int) as i64),
    }
}

/// Saturates `x` into `[-bound, bound]`.
pub open spec fn clamp_to(x: int, bound: int) -> int {
    if x < -bound {
        -bound
    } else if x > bound {
        bound
    } else {
        x
    }
}

/// Clamps one length into range; the identity on well-formed lengths.
pub fn clamp_val(v: &Val) -> (r: Val)
    ensures
        r == s_clamp_val(*v),
        val_wf(r),
        val_wf(*v) ==> r == *v,
{
    match v {
        Val::Auto => Val::Auto,
        Val::Px(p) => Val::Px(clamp_i64(*p, COORD_LIMIT)),
        Val::Percent(p) => Val::Percent(clamp_i64(*p, FACTOR_LIMIT)),
        Val::Vw(p) => Val::Vw(clamp_i64(*p, FACTOR_LIMIT)),
        Val::Vh(p) => Val::Vh(clamp_i64(*p, FACTOR_LIMIT)),
    }
}

/// Saturation into a symmetric range: the executable twin of `clamp_to`.
fn clamp_i64(x: i64, bound: i64) -> (r: i64)
    requires
        bound >= 0,
    ensures
        r as int == clamp_to(x as int, bound as int),
{
    if x < -bound {
        -bound
    } else if x > bound {
        bound
    } else {
        x
    }
}

/// Clamps all four insets into range.
fn clamp_ui_rect(r: &UiRect) -> (t: UiRect)
    ensures
        ui_rect_wf(t),
        t.left == s_clamp_val(r.left),
        t.right == s_clamp_val(r.right),
        t.top == s_clamp_val(r.top),
        t.bottom == s_clamp_val(r.bottom),
        ui_rect_wf(*r) ==> t == *r,
{
    UiRect {
        left: clamp_val(&r.left),
        right: clamp_val(&r.right),
        top: clamp_val(&r.top),
        bottom: clamp_val(&r.bottom),
    }
}

/// The nearest well-formed style to `st`: each field clamped into range.
pub open spec fn s_sanitize(st: Style) -> Style {
    Style {
        display: st.display,
        position_type: st.position_type,
        flex_direction: st.flex_direction,
        justify_content: st.justify_content,
        align_items: st.align_items,
        width: s_clamp_val(st.width),
        height: s_clamp_val(st.height),
        min_width: s_clamp_val(st.min_width),
        min_height: s_clamp_val(st.min_height),
        max_width: s_clamp_val(st.max_width),
        max_height: s_clamp_val(st.max_height),
        flex_basis: s_clamp_val(st.flex_basis),
        flex_grow: crate::geometry::s_max0(clamp_to(st.flex_grow as int, FACTOR_LIMIT as int)) as i64,
        flex_shrink: crate::geometry::s_max0(
            clamp_to(st.flex_shrink as int, FACTOR_LIMIT as int),
        ) as i64,
        margin: UiRect {
            left: s_clamp_val(st.margin.left),
            right: s_clamp_val(st.margin.right),
            top: s_clamp_val(st.margin.top),
            bottom: s_clamp_val(st.margin.bottom),
        },
        padding: UiRect {
            left: s_clamp_val(st.padding.left),
            right: s_clamp_val(st.padding.right),
            top: s_clamp_val(st.padding.top),
            bottom: s_clamp_val(st.padding.bottom),
        },
        left: s_clamp_val(st.left),
        top: s_clamp_val(st.top),
        overflow: st.overflow,
    }
}

/// Total style translation: every recognized property maps to itself when
/// valid and to the nearest valid value otherwise. Never fails.
pub fn sanitize_style(s: &Style) -> (t: Style)
    ensures
        t == s_sanitize(*s),
        style_wf(t),
        style_wf(*s) ==> t == *s,
        t.display == s.display,
        t.position_type == s.position_type,
        t.flex_direction == s.flex_direction,
        t.justify_content == s.justify_content,
        t.align_items == s.align_items,
        t.overflow == s.overflow,
{
    Style {
        display: s.display,
        position_type: s.position_type,
        flex_direction: s.flex_direction,
        justify_content: s.justify_content,
        align_items: s.align_items,
        width: clamp_val(&s.width),
        height: clamp_val(&s.height),
        min_width: clamp_val(&s.min_width),
        min_height: clamp_val(&s.min_height),
        max_width: clamp_val(&s.max_width),
        max_height: clamp_val(&s.max_height),
        flex_basis: clamp_val(&s.flex_basis),
        flex_grow: if s.flex_grow < 0 {
            0
        } else if s.flex_grow > FACTOR_LIMIT {
            FACTOR_LIMIT
        } else {
            s.flex_grow
        },
        flex_shrink: if s.flex_shrink < 0 {
            0
        } else if s.flex_shrink > FACTOR_LIMIT {
            FACTOR_LIMIT
        } else {
            s.flex_shrink
        },
        margin: clamp_ui_rect(&s.margin),
        padding: clamp_ui_rect(&s.padding),
        left: clamp_val(&s.left),
        top: clamp_val(&s.top),
        overflow: s.overflow,
    }
}

/// A UI element: identity, style, interaction inputs and children, in tree
/// (insertion) order. Geometry is an output of the layout pass and is never
/// stored here, so a layout run cannot observe an earlier run's result.
pub struct UiNode {
    /// Stable identity of the owning entity.
    pub entity: u64,
    /// Style record driving layout.
    pub style: Style,
    /// Sibling paint-order key; lower paints first, ties keep tree order.
    pub z_index: i64,
    /// Whether this node blocks pointer hit-testing for nodes below it.
    pub focus_policy: FocusPolicy,
    /// Outline width; the outline never participates in layout or clipping.
    pub outline_width: Val,
    /// Content-driven natural width supplied by an external measurement;
    /// zero while no measurement is available.
    pub intrinsic_w: i64,
    /// Content-driven natural height, as `intrinsic_w`.
    pub intrinsic_h: i64,
    /// Children in tree (insertion) order.
    pub children: Vec<UiNode>,
}

/// A well-formed tree: every style and length in it is in range.
pub open spec fn wf_tree(n: UiNode) -> bool
    decreases n,
{
    &&& style_wf(n.style)
    &&& val_wf(n.outline_width)
    &&& 0 <= n.intrinsic_w <= COORD_LIMIT
    &&& 0 <= n.intrinsic_h <= COORD_LIMIT
    &&& wf_forest(n.children@, 0)
}

/// Well-formedness of the subtrees `s[from..]`.
pub open spec fn wf_forest(s: Seq<UiNode>, from: int) -> bool
    decreases s, s.len() - from,
{
    if from < 0 || from >= s.len() {
        true
    } else {
        wf_tree(s[from]) && wf_forest(s, from + 1)
    }
}

/// A non-negative size clamped into the coordinate range.
pub open spec fn s_clamp_size(x: int) -> int {
    if x < 0 {
        0
    } else if x > COORD_LIMIT as int {
        COORD_LIMIT as int
    } else {
        x
    }
}

/// `out` is the sanitized image of `n`, node for node: every style,
/// outline width and intrinsic size clamped to its nearest valid value,
/// everything else — identity, `z_index`, focus policy, tree order —
/// preserved exactly.
pub open spec fn sanitized_from(out: UiNode, n: UiNode) -> bool
    decreases out, 0int,
{
    &&& out.entity == n.entity
    &&& out.style == s_sanitize(n.style)
    &&& out.z_index == n.z_index
    &&& out.focus_policy == n.focus_policy
    &&& out.outline_width == s_clamp_val(n.outline_width)
    &&& out.intrinsic_w as int == s_clamp_size(n.intrinsic_w as int)
    &&& out.intrinsic_h as int == s_clamp_size(n.intrinsic_h as int)
    &&& out.children@.len() == n.children@.len()
    &&& sanitized_forest(out.children@, n.children@, 0)
}

/// Pairwise sanitization over the forest tails `x[from..]` and `y[from..]`.
pub open spec fn sanitized_forest(x: Seq<UiNode>, y: Seq<UiNode>, from: int) -> bool
    decreases x, x.len() - from + 1,
{
    if from < 0 || from >= x.len() {
        true
    } else {
        from < y.len() && sanitized_from(x[from], y[from]) && sanitized_forest(x, y, from + 1)
    }
}

/// Forests pairwise sanitized are sanitized as tails.
proof fn lemma_sanitized_forest_pointwise(x: Seq<UiNode>, y: Seq<UiNode>, from: int)
    requires
        x.len() == y.len(),
        0 <= from <= x.len(),
        forall|k: int| 0 <= k < x.len() ==> sanitized_from(#[trigger] x[k], y[k]),
    ensures
        sanitized_forest(x, y, from),
    decreases x.len() - from,
{
    if from < x.len() {
        lemma_sanitized_forest_pointwise(x, y, from + 1);
    }
}

/// Sanitizes a whole tree: every style, outline width and intrinsic size
/// is clamped into range, so the result is well-formed whatever was handed
/// in; everything the stacking resolver reads — identity, `display`,
/// `z_index`, tree order — and the focus policy are preserved exactly.
pub fn sanitize_tree(n: &UiNode) -> (out: UiNode)
    ensures
        wf_tree(out),
        sanitized_from(out, *n),
        crate::stack::stack_inputs_eq(out, *n),
    decreases *n,
{
    let mut kids: Vec<UiNode> = Vec::new();
    let mut i: usize = 0;
    while i < n.children.len()
        invariant
            0 <= i <= n.children@.len(),
            kids@.len() == i,
            forall|k: int|
                0 <= k < i ==> wf_tree(#[trigger] kids@[k]) && sanitized_from(
                    kids@[k],
                    n.children@[k],
                ) && crate::stack::stack_inputs_eq(kids@[k], n.children@[k]),
        decreases n.children@.len() - i,
    {
        let child = sanitize_tree(&n.children[i]);
        kids.push(child);
        i = i + 1;
    }
    proof {
        lemma_wf_forest_pointwise(kids@, 0);
        lemma_sanitized_forest_pointwise(kids@, n.children@, 0);
        lemma_inputs_forest_pointwise(kids@, n.children@, 0);
    }
    UiNode {
        entity: n.entity,
        style: sanitize_style(&n.style),
        z_index: n.z_index,
        focus_policy: n.focus_policy,
        outline_width: clamp_val(&n.outline_width),
        intrinsic_w: if n.intrinsic_w < 0 {
            0
        } else if n.intrinsic_w > COORD_LIMIT {
            COORD_LIMIT
        } else {
            n.intrinsic_w
        },
        intrinsic_h: if n.intrinsic_h < 0 {
            0
        } else if n.intrinsic_h > COORD_LIMIT {
            COORD_LIMIT
        } else {
            n.intrinsic_h
        },
        children: kids,
    }
}

/// A forest whose members are each well-formed is well-formed as a tail.
proof fn lemma_wf_forest_pointwise(s: Seq<UiNode>, from: int)
    requires
        0 <= from <= s.len(),
        forall|k: int| 0 <= k < s.len() ==> wf_tree(#[trigger] s[k]),
    ensures
        wf_forest(s, from),
    decreases s.len() - from,
{
    if from < s.len() {
        lemma_wf_forest_pointwise(s, from + 1);
    }
}

/// Forests pairwise equal on stacking inputs are equal as tails.
proof fn lemma_inputs_forest_pointwise(x: Seq<UiNode>, y: Seq<UiNode>, from: int)
    requires
        x.len() == y.len(),
        0 <= from <= x.len(),
        forall|k: int|
            0 <= k < x.len() ==> crate::stack::stack_inputs_eq(#[trigger] x[k], y[k]),
    ensures
        crate::stack::forest_inputs_eq(x, y, from),
    decreases x.len() - from,
{
    if from < x.len() {
        lemma_inputs_forest_pointwise(x, y, from + 1);
    }
}

/// Every subtree in a well-formed forest tail is itself well-formed.
pub proof fn lemma_wf_forest_index(s: Seq<UiNode>, from: int, i: int)
    requires
        wf_forest(s, from),
        0 <= from <= i < s.len(),
    ensures
        wf_tree(s[i]),
        wf_forest(s, i),
    decreases i - from,
{
    if from < i {
        lemma_wf_forest_index(s, from + 1, i);
    }
}

} // verus!
