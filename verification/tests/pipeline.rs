//! End-to-end scenarios for the UI core: layout, stacking, clipping,
//! focus and the mirror, run as the frame pipeline would run them.
use ui_core::focus::{interaction_changes, ui_focus_system, HitEntry, InteractionChange};
use ui_core::geometry::{Rect, UiScale, Val, COORD_LIMIT};
use ui_core::layout::{ui_layout_system, LayoutNode};
use ui_core::stack::ui_stack_system;
use ui_core::surface::UiSurface;
use ui_core::ui_node::{
    sanitize_style, AlignItems, Display, FlexDirection, FocusPolicy, Interaction, JustifyContent,
    PositionType, Style, UiNode,
};
use ui_core::update::{collect_hit_rects, find_rect, update_clipping_system};

fn node(entity: u64, style: Style, z: i64, children: Vec<UiNode>) -> UiNode {
    UiNode {
        entity,
        style,
        z_index: z,
        focus_policy: FocusPolicy::Block,
        outline_width: Val::Px(0),
        intrinsic_w: 0,
        intrinsic_h: 0,
        children,
    }
}

fn sized(w: i64, h: i64) -> Style {
    let mut s = Style::default();
    s.width = Val::Px(w);
    s.height = Val::Px(h);
    s
}

fn grow1() -> Style {
    let mut s = Style::default();
    s.flex_grow = 1;
    s
}

fn rect(min_x: i64, min_y: i64, max_x: i64, max_y: i64) -> Rect {
    Rect { min_x, min_y, max_x, max_y }
}

fn viewport(w: i64, h: i64) -> Rect {
    rect(0, 0, w, h)
}

/// Builds the focus input from the frame's stack and clip output: one entry
/// per stacked entity, with its visible rectangle, all blocking.
fn hit_entries(stack: &[u64], rects: &Vec<(u64, Rect)>) -> Vec<HitEntry> {
    let mut out = Vec::new();
    for e in stack {
        let r = find_rect(rects, *e).expect("stacked entity has resolved geometry");
        out.push(HitEntry { entity: *e, rect: r, blocking: true });
    }
    out
}

fn layout_default(root: &UiNode, w: i64, h: i64) -> LayoutNode {
    ui_layout_system(root, w, h, &UiScale::default())
}

#[test]
fn two_grow_children_split_row() {
    // Root 800x600, two flex-grow:1 children in a row with no fixed widths:
    // each resolves to 400x600, adjacent, left to right.
    let root = node(
        0,
        sized(800, 600),
        0,
        vec![node(1, grow1(), 0, vec![]), node(2, grow1(), 0, vec![])],
    );
    let out = layout_default(&root, 800, 600);
    assert_eq!(out.rect, rect(0, 0, 800, 600));
    assert_eq!(out.children[0].rect, rect(0, 0, 400, 600));
    assert_eq!(out.children[1].rect, rect(400, 0, 800, 600));
}

#[test]
fn z_index_paint_order() {
    // Three siblings with z-index {2, 0, 1}: back-to-front order is
    // [z=0, z=1, z=2].
    let root = node(
        10,
        sized(100, 100),
        0,
        vec![
            node(1, Style::default(), 2, vec![]),
            node(2, Style::default(), 0, vec![]),
            node(3, Style::default(), 1, vec![]),
        ],
    );
    let stack = ui_stack_system(&root);
    assert_eq!(stack.uinodes, vec![10, 2, 3, 1]);
}

#[test]
fn equal_z_keeps_tree_order() {
    let root = node(
        10,
        sized(100, 100),
        0,
        vec![
            node(1, Style::default(), 0, vec![]),
            node(2, Style::default(), 0, vec![]),
            node(3, Style::default(), 0, vec![]),
        ],
    );
    let stack = ui_stack_system(&root);
    assert_eq!(stack.uinodes, vec![10, 1, 2, 3]);
}

#[test]
fn reordering_tree_order_reorders_ties() {
    // With all other stacking inputs equal, paint order follows insertion.
    let a = node(10, sized(10, 10), 0, vec![
        node(1, Style::default(), 0, vec![]),
        node(2, Style::default(), 0, vec![]),
    ]);
    let b = node(10, sized(10, 10), 0, vec![
        node(2, Style::default(), 0, vec![]),
        node(1, Style::default(), 0, vec![]),
    ]);
    assert_eq!(ui_stack_system(&a).uinodes, vec![10, 1, 2]);
    assert_eq!(ui_stack_system(&b).uinodes, vec![10, 2, 1]);
}

#[test]
fn display_none_zero_size_and_excluded() {
    // A display:none node and its subtree resolve to zero size and are
    // excluded from the stack.
    let mut hidden_style = sized(100, 100);
    hidden_style.display = Display::Hidden;
    let root = node(
        0,
        sized(800, 600),
        0,
        vec![node(1, hidden_style, 0, vec![node(2, sized(50, 50), 0, vec![])])],
    );
    let out = layout_default(&root, 800, 600);
    assert_eq!(out.children[0].rect, rect(0, 0, 0, 0));
    assert_eq!(out.children[0].children[0].rect, rect(0, 0, 0, 0));
    let stack = ui_stack_system(&root);
    assert_eq!(stack.uinodes, vec![0]);
}

#[test]
fn hidden_root_stacks_nothing() {
    let mut s = sized(10, 10);
    s.display = Display::Hidden;
    let root = node(7, s, 0, vec![node(8, Style::default(), 0, vec![])]);
    assert!(ui_stack_system(&root).uinodes.is_empty());
}

#[test]
fn layout_idempotent() {
    // Two runs with no style or tree change give identical geometry.
    let root = node(
        0,
        sized(640, 480),
        0,
        vec![node(1, grow1(), 0, vec![node(2, sized(30, 40), 0, vec![])]), node(2, grow1(), 0, vec![])],
    );
    let a = layout_default(&root, 640, 480);
    let b = layout_default(&root, 640, 480);
    assert_layout_eq(&a, &b);
}

fn assert_layout_eq(a: &LayoutNode, b: &LayoutNode) {
    assert_eq!(a.entity, b.entity);
    assert_eq!(a.rect, b.rect);
    assert_eq!(a.children.len(), b.children.len());
    for (ca, cb) in a.children.iter().zip(b.children.iter()) {
        assert_layout_eq(ca, cb);
    }
}

#[test]
fn pointer_outside_everything_hovers_nothing() {
    let root = node(0, sized(800, 600), 0, vec![node(1, grow1(), 0, vec![])]);
    let out = layout_default(&root, 800, 600);
    let clips = update_clipping_system(&out, viewport(800, 600));
    let rects = collect_hit_rects(&clips);
    let stack = ui_stack_system(&root);
    let entries = hit_entries(&stack.uinodes, &rects);
    let states = ui_focus_system(&entries, &Some((5000, 5000)), false);
    for (_, st) in states {
        assert_eq!(st, Interaction::Idle);
    }
}

#[test]
fn blocking_node_occludes_lower() {
    // Two same-sized siblings stacked by z: the upper blocking node takes
    // the hover; the fully covered lower node never hovers.
    let root = node(
        0,
        sized(100, 100),
        0,
        vec![
            node(1, grow1(), 0, vec![]),
            node(2, {
                let mut s = sized(100, 100);
                s.position_type = PositionType::Absolute;
                s.left = Val::Px(0);
                s.top = Val::Px(0);
                s
            }, 1, vec![]),
        ],
    );
    let out = layout_default(&root, 100, 100);
    let clips = update_clipping_system(&out, viewport(100, 100));
    let rects = collect_hit_rects(&clips);
    let stack = ui_stack_system(&root);
    assert_eq!(stack.uinodes, vec![0, 1, 2]);
    let entries = hit_entries(&stack.uinodes, &rects);
    let states = ui_focus_system(&entries, &Some((50, 50)), false);
    assert_eq!(states[2], (2, Interaction::Hovered));
    assert_eq!(states[1], (1, Interaction::Idle));
    assert_eq!(states[0], (0, Interaction::Idle));
}

#[test]
fn pass_through_skipped_without_stopping() {
    let root = node(0, sized(100, 100), 0, vec![node(1, grow1(), 0, vec![])]);
    let out = layout_default(&root, 100, 100);
    let clips = update_clipping_system(&out, viewport(100, 100));
    let rects = collect_hit_rects(&clips);
    // Topmost child passes pointer events through; the root below is hit.
    let entries = vec![
        HitEntry { entity: 0, rect: find_rect(&rects, 0).unwrap(), blocking: true },
        HitEntry { entity: 1, rect: find_rect(&rects, 1).unwrap(), blocking: false },
    ];
    let states = ui_focus_system(&entries, &Some((50, 50)), true);
    assert_eq!(states[1], (1, Interaction::Idle));
    assert_eq!(states[0], (0, Interaction::Pressed));
}

#[test]
fn fully_clipped_node_never_hovered() {
    // The child sits outside its clipping parent, so its visible rectangle
    // has zero area; pointing at its raw rectangle hovers nothing.
    let mut clip_all = sized(100, 100);
    clip_all.overflow.x = ui_core::ui_node::OverflowAxis::Clip;
    clip_all.overflow.y = ui_core::ui_node::OverflowAxis::Clip;
    let mut far = sized(50, 50);
    far.position_type = PositionType::Absolute;
    far.left = Val::Px(150);
    far.top = Val::Px(0);
    let root = node(0, clip_all, 0, vec![node(1, far, 0, vec![])]);
    let out = layout_default(&root, 800, 600);
    assert_eq!(out.children[0].rect, rect(150, 0, 200, 50));
    let clips = update_clipping_system(&out, viewport(800, 600));
    let rects = collect_hit_rects(&clips);
    let visible = find_rect(&rects, 1).unwrap();
    assert!(visible.min_x == visible.max_x || visible.min_y == visible.max_y);
    let stack = ui_stack_system(&root);
    let entries = hit_entries(&stack.uinodes, &rects);
    let states = ui_focus_system(&entries, &Some((175, 25)), false);
    for (_, st) in states {
        assert_eq!(st, Interaction::Idle);
    }
}

#[test]
fn child_clip_contained_in_parent_clip() {
    let mut clip_all = sized(100, 100);
    clip_all.overflow.x = ui_core::ui_node::OverflowAxis::Clip;
    clip_all.overflow.y = ui_core::ui_node::OverflowAxis::Clip;
    let root = node(0, clip_all, 0, vec![node(1, sized(300, 300), 0, vec![])]);
    let out = layout_default(&root, 800, 600);
    let clips = update_clipping_system(&out, viewport(800, 600));
    let parent_clip = clips.clip;
    let child_clip = clips.children[0].clip;
    assert!(child_clip.min_x >= parent_clip.min_x);
    assert!(child_clip.min_y >= parent_clip.min_y);
    assert!(child_clip.max_x <= parent_clip.max_x);
    assert!(child_clip.max_y <= parent_clip.max_y);
    assert_eq!(child_clip, rect(0, 0, 100, 100));
}

#[test]
fn removed_entity_pruned_and_absent_from_stack() {
    // Removing an owning entity between frames prunes its mirror handle;
    // the next frame's tree and stack no longer carry it.
    let mut surface = UiSurface::new();
    surface.upsert_node(1, &Style::default());
    surface.upsert_node(2, &Style::default());
    let h2 = surface.get_handle(2).unwrap();
    surface.remove_entity(2);
    assert!(surface.get_handle(2).is_none());
    assert!(surface.get_handle(1).is_some());
    assert_eq!(surface.len(), 1);
    // Handles are never reused for a new entity.
    surface.upsert_node(3, &Style::default());
    assert_ne!(surface.get_handle(3).unwrap(), h2);
    // Frame N+1 is built from the mirror's live entities only.
    let root = node(0, sized(10, 10), 0, vec![node(1, Style::default(), 0, vec![])]);
    let stack = ui_stack_system(&root);
    assert!(!stack.uinodes.contains(&2));
}

#[test]
fn upsert_keeps_handle_and_updates_style() {
    let mut surface = UiSurface::new();
    surface.upsert_node(5, &Style::default());
    let h = surface.get_handle(5).unwrap();
    let mut s = Style::default();
    s.flex_grow = 3;
    surface.upsert_node(5, &s);
    assert_eq!(surface.get_handle(5).unwrap(), h);
    assert_eq!(surface.len(), 1);
}

#[test]
fn scale_multiplies_fixed_lengths() {
    let root = node(0, sized(400, 300), 0, vec![]);
    let out = ui_layout_system(&root, 1000, 1000, &UiScale(200));
    assert_eq!(out.rect, rect(0, 0, 800, 600));
}

#[test]
fn default_scale_is_identity() {
    assert_eq!(UiScale::default().0, 100);
}

#[test]
fn percent_resolves_against_containing_block() {
    let mut half = Style::default();
    half.width = Val::Percent(50);
    half.height = Val::Percent(25);
    half.align_items = AlignItems::Start;
    let root = node(0, sized(800, 600), 0, vec![node(1, half, 0, vec![])]);
    let out = layout_default(&root, 800, 600);
    assert_eq!(out.children[0].rect, rect(0, 0, 400, 150));
}

#[test]
fn viewport_relative_lengths() {
    let mut s = Style::default();
    s.width = Val::Vw(50);
    s.height = Val::Vh(10);
    let root = node(0, sized(800, 600), 0, vec![node(1, s, 0, vec![])]);
    let out = layout_default(&root, 800, 600);
    assert_eq!(out.children[0].rect.max_x, 400);
    assert_eq!(out.children[0].rect.max_y - out.children[0].rect.min_y, 60);
}

#[test]
fn min_wins_over_max() {
    let mut s = Style::default();
    s.width = Val::Px(1000);
    s.max_width = Val::Px(300);
    s.min_width = Val::Px(350);
    s.height = Val::Px(10);
    let root = node(0, sized(800, 600), 0, vec![node(1, s, 0, vec![])]);
    let out = layout_default(&root, 800, 600);
    assert_eq!(out.children[0].rect.max_x, 350);
}

#[test]
fn max_clamps_after_grow() {
    // Min/max bounds apply after flexible sizing.
    let mut s = grow1();
    s.max_width = Val::Px(100);
    let root = node(0, sized(800, 100), 0, vec![node(1, s, 0, vec![]), node(2, grow1(), 0, vec![])]);
    let out = layout_default(&root, 800, 100);
    assert_eq!(out.children[0].rect, rect(0, 0, 100, 100));
}

#[test]
fn column_direction_stacks_vertically() {
    let mut col = sized(200, 600);
    col.flex_direction = FlexDirection::Column;
    let root = node(0, col, 0, vec![node(1, grow1(), 0, vec![]), node(2, grow1(), 0, vec![])]);
    let out = layout_default(&root, 200, 600);
    assert_eq!(out.children[0].rect, rect(0, 0, 200, 300));
    assert_eq!(out.children[1].rect, rect(0, 300, 200, 600));
}

#[test]
fn justify_center_centers_leftover() {
    let mut st = sized(800, 100);
    st.justify_content = JustifyContent::Center;
    let root = node(0, st, 0, vec![node(1, sized(200, 100), 0, vec![])]);
    let out = layout_default(&root, 800, 100);
    assert_eq!(out.children[0].rect, rect(300, 0, 500, 100));
}

#[test]
fn space_between_spreads_children() {
    let mut st = sized(800, 100);
    st.justify_content = JustifyContent::SpaceBetween;
    let root = node(
        0,
        st,
        0,
        vec![node(1, sized(100, 100), 0, vec![]), node(2, sized(100, 100), 0, vec![])],
    );
    let out = layout_default(&root, 800, 100);
    assert_eq!(out.children[0].rect, rect(0, 0, 100, 100));
    assert_eq!(out.children[1].rect, rect(700, 0, 800, 100));
}

#[test]
fn shrink_absorbs_deficit() {
    let mut s1 = sized(600, 100);
    s1.flex_shrink = 1;
    let mut s2 = sized(600, 100);
    s2.flex_shrink = 1;
    let root = node(0, sized(800, 100), 0, vec![node(1, s1, 0, vec![]), node(2, s2, 0, vec![])]);
    let out = layout_default(&root, 800, 100);
    // Deficit 400 split evenly: each child shrinks from 600 to 400.
    assert_eq!(out.children[0].rect, rect(0, 0, 400, 100));
    assert_eq!(out.children[1].rect, rect(400, 0, 800, 100));
}

#[test]
fn intrinsic_size_used_for_auto_leaves() {
    let mut leaf = UiNode {
        entity: 1,
        style: Style::default(),
        z_index: 0,
        focus_policy: FocusPolicy::Block,
        outline_width: Val::Px(0),
        intrinsic_w: 120,
        intrinsic_h: 40,
        children: vec![],
    };
    leaf.style.align_items = AlignItems::Start;
    let mut rs = sized(800, 600);
    rs.align_items = AlignItems::Start;
    let root = node(0, rs, 0, vec![leaf]);
    let out = layout_default(&root, 800, 600);
    assert_eq!(out.children[0].rect, rect(0, 0, 120, 40));
}

#[test]
fn missing_intrinsic_size_is_zero() {
    // A leaf that wants content sizing but has no measurement yet takes
    // zero size for the frame.
    let mut rs = sized(800, 600);
    rs.align_items = AlignItems::Start;
    let root = node(0, rs, 0, vec![node(1, Style::default(), 0, vec![])]);
    let out = layout_default(&root, 800, 600);
    assert_eq!(out.children[0].rect, rect(0, 0, 0, 0));
}

#[test]
fn absolute_child_positions_by_insets() {
    let mut a = sized(50, 60);
    a.position_type = PositionType::Absolute;
    a.left = Val::Px(30);
    a.top = Val::Px(40);
    let root = node(0, sized(800, 600), 0, vec![node(1, a, 0, vec![])]);
    let out = layout_default(&root, 800, 600);
    assert_eq!(out.children[0].rect, rect(30, 40, 80, 100));
}

#[test]
fn padding_shrinks_content_box() {
    let mut st = sized(800, 600);
    st.padding = ui_core::geometry::UiRect {
        left: Val::Px(10),
        right: Val::Px(20),
        top: Val::Px(30),
        bottom: Val::Px(40),
    };
    let root = node(0, st, 0, vec![node(1, grow1(), 0, vec![])]);
    let out = layout_default(&root, 800, 600);
    assert_eq!(out.children[0].rect, rect(10, 30, 780, 560));
}

#[test]
fn margins_offset_children() {
    let mut st = sized(800, 600);
    st.align_items = AlignItems::Start;
    let mut m = sized(100, 100);
    m.margin = ui_core::geometry::UiRect {
        left: Val::Px(25),
        right: Val::Px(0),
        top: Val::Px(15),
        bottom: Val::Px(0),
    };
    let root = node(0, st, 0, vec![node(1, m, 0, vec![])]);
    let out = layout_default(&root, 800, 600);
    assert_eq!(out.children[0].rect, rect(25, 15, 125, 115));
}

#[test]
fn sanitize_clamps_out_of_range_styles() {
    let mut s = Style::default();
    s.flex_grow = -7;
    s.width = Val::Percent(2_000_000);
    let t = sanitize_style(&s);
    assert_eq!(t.flex_grow, 0);
    assert_eq!(t.width, Val::Percent(100_000));
    // Sanitizing a well-formed style is the identity.
    let ok = Style::default();
    assert_eq!(sanitize_style(&ok), ok);
}

#[test]
fn outline_expands_border_box() {
    let mut root = node(0, sized(100, 100), 0, vec![]);
    root.outline_width = Val::Px(5);
    let out = layout_default(&root, 800, 600);
    let outlines = ui_core::update::resolve_outlines_system(&out, 800, 600, 100);
    assert_eq!(outlines.len(), 1);
    assert_eq!(outlines[0], (0, rect(-5, -5, 105, 105)));
}

#[test]
fn interaction_transitions_are_discrete() {
    let prev = vec![(1u64, Interaction::Idle), (2u64, Interaction::Hovered)];
    let now = vec![(1u64, Interaction::Hovered), (2u64, Interaction::Hovered)];
    let changes = interaction_changes(&prev, &now);
    assert_eq!(
        changes,
        vec![InteractionChange { entity: 1, was: Interaction::Idle, now: Interaction::Hovered }]
    );
}

#[test]
fn press_and_release_follow_hover() {
    let root = node(0, sized(100, 100), 0, vec![]);
    let out = layout_default(&root, 100, 100);
    let clips = update_clipping_system(&out, viewport(100, 100));
    let rects = collect_hit_rects(&clips);
    let stack = ui_stack_system(&root);
    let entries = hit_entries(&stack.uinodes, &rects);
    let down = ui_focus_system(&entries, &Some((10, 10)), true);
    assert_eq!(down[0].1, Interaction::Pressed);
    let up = ui_focus_system(&entries, &Some((10, 10)), false);
    assert_eq!(up[0].1, Interaction::Hovered);
    let gone = ui_focus_system(&entries, &None, false);
    assert_eq!(gone[0].1, Interaction::Idle);
}

#[test]
fn stack_ignores_geometry_inputs() {
    // Stacking order is a function solely of tree order, display and
    // z-index: changing sizes does not change it.
    let a = node(0, sized(800, 600), 0, vec![node(1, sized(1, 1), 3, vec![]), node(2, grow1(), 1, vec![])]);
    let b = node(0, sized(10, 10), 0, vec![node(1, grow1(), 3, vec![]), node(2, sized(9, 9), 1, vec![])]);
    assert_eq!(ui_stack_system(&a).uinodes, ui_stack_system(&b).uinodes);
}

#[test]
fn space_evenly_distributes_gaps() {
    let mut st = sized(800, 100);
    st.justify_content = JustifyContent::SpaceEvenly;
    let root = node(
        0,
        st,
        0,
        vec![node(1, sized(100, 100), 0, vec![]), node(2, sized(100, 100), 0, vec![])],
    );
    let out = layout_default(&root, 800, 100);
    // Leftover 600 split into three equal gaps of 200.
    assert_eq!(out.children[0].rect, rect(200, 0, 300, 100));
    assert_eq!(out.children[1].rect, rect(500, 0, 600, 100));
}

#[test]
fn space_around_halves_edge_gaps() {
    let mut st = sized(800, 100);
    st.justify_content = JustifyContent::SpaceAround;
    let root = node(
        0,
        st,
        0,
        vec![node(1, sized(100, 100), 0, vec![]), node(2, sized(100, 100), 0, vec![])],
    );
    let out = layout_default(&root, 800, 100);
    // Leftover 600: 300 around each child, half at the edges.
    assert_eq!(out.children[0].rect, rect(150, 0, 250, 100));
    assert_eq!(out.children[1].rect, rect(550, 0, 650, 100));
}

#[test]
fn zero_viewport_collapses_everything() {
    let root = node(0, Style::default(), 0, vec![node(1, grow1(), 0, vec![])]);
    let out = layout_default(&root, 0, 0);
    assert_eq!(out.rect, rect(0, 0, 0, 0));
    assert_eq!(out.children[0].rect, rect(0, 0, 0, 0));
}

#[test]
fn out_of_range_tree_is_sanitized_and_saturates() {
    let mut huge = Style::default();
    huge.width = Val::Px(i64::MAX);
    huge.height = Val::Px(i64::MAX);
    let raw = node(0, huge, 0, vec![]);
    let clean = ui_core::ui_node::sanitize_tree(&raw);
    let out = layout_default(&clean, COORD_LIMIT, COORD_LIMIT);
    assert_eq!(out.rect, rect(0, 0, COORD_LIMIT, COORD_LIMIT));
}

#[test]
fn percentage_of_unsized_parent_falls_back_to_zero() {
    // Percentages resolve strictly top-down against the parent's already
    // resolved size, so a circular percentage dependency cannot arise: a
    // child asking for a percentage of a content-sized parent with no
    // measurement resolves against zero, the defined fallback, rather
    // than looping.
    let mut rs = Style::default();
    rs.align_items = AlignItems::Start;
    let mut half = Style::default();
    half.width = Val::Percent(50);
    half.height = Val::Percent(50);
    let inner = node(2, half, 0, vec![]);
    let middle = node(1, rs, 0, vec![inner]);
    let mut top = sized(800, 600);
    top.align_items = AlignItems::Start;
    let root = node(0, top, 0, vec![middle]);
    let out = layout_default(&root, 800, 600);
    // The middle node is content-sized with no intrinsic measurement.
    assert_eq!(out.children[0].rect, rect(0, 0, 0, 0));
    assert_eq!(out.children[0].children[0].rect, rect(0, 0, 0, 0));
}
