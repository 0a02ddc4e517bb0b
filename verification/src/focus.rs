//! The focus and interaction resolver: combines the frame's paint order
//! with the pointer to elect at most one hovered or pressed node. Walking
//! the UI stack from topmost to bottommost, the first node whose resolved
//! clip-respecting rectangle contains the pointer and whose focus policy
//! blocks becomes the sole `Hovered` (or `Pressed`, if the primary button
//! is down) node; everything below it, hit or not, stays `Idle`.
//! Pass-through nodes are skipped without stopping the walk.
use vstd::prelude::*;

use crate::geometry::{s_contains, s_rect_sub, Rect};
use crate::ui_node::{FocusPolicy, Interaction, UiNode};

verus! {

/// One stack entry as the focus resolver sees it, in back-to-front order:
/// the node's clip-respecting visible rectangle and whether it blocks
/// pointer hit-testing.
#[derive(Clone, Copy, Debug, PartialEq, Eq, Structural)]
pub struct HitEntry {
    /// Owning entity.
    pub entity: u64,
    /// Visible rectangle: resolved geometry intersected with the node's
    /// inherited clip rectangle.
    pub rect: Rect,
    /// Whether the node's focus policy blocks nodes painted below it.
    pub blocking: bool,
}

/// The index of the topmost blocking entry containing the pointer, if any:
/// entries are back-to-front, so the topmost hit is the greatest index.
pub open spec fn s_hit_index(s: Seq<HitEntry>, x: int, y: int) -> Option<int>
    decreases s,
{
    if s.len() == 0 {
        Option::None
    } else if s.last().blocking && s_contains(s.last().rect, x, y) {
        Option::Some(s.len() - 1)
    } else {
        s_hit_index(s.drop_last(), x, y)
    }
}

/// The interaction state entry `i` resolves to this frame.
pub open spec fn s_interaction_of(
    i: int,
    s: Seq<HitEntry>,
    pointer: Option<(i64, i64)>,
    pressed: bool,
) -> Interaction {
    match pointer {
        Option::Some(p) => if s_hit_index(s, p.0 as int, p.1 as int) == Option::Some(i) {
            if pressed {
                Interaction::Pressed
            } else {
                Interaction::Hovered
            }
        } else {
            Interaction::Idle
        },
        Option::None => Interaction::Idle,
    }
}

/// Finds the topmost blocking entry containing the pointer.
fn hit_index(entries: &Vec<HitEntry>, x: i64, y: i64) -> (r: Option<usize>)
    ensures
        match r {
            Option::Some(k) => s_hit_index(entries@, x as int, y as int) == Option::Some(k as int),
            Option::None => s_hit_index(entries@, x as int, y as int) is None,
        },
{
    let mut i: usize = entries.len();
    proof {
        assert(entries@.subrange(0, entries@.len() as int) =~= entries@);
    }
    while i > 0
        invariant
            0 <= i <= entries@.len(),
            s_hit_index(entries@, x as int, y as int) == s_hit_index(
                entries@.subrange(0, i as int),
                x as int,
                y as int,
            ),
        decreases i,
    {
        let e = entries[i - 1];
        let ghost pre = entries@.subrange(0, i as int);
        proof {
            assert(pre.last() == entries@[i - 1]);
            assert(pre.drop_last() =~= entries@.subrange(0, i - 1));
        }
        if e.blocking && e.rect.contains(x, y) {
            return Option::Some(i - 1);
        }
        i = i - 1;
    }
    proof {
        assert(entries@.subrange(0, 0) =~= Seq::<HitEntry>::empty());
    }
    Option::None
}

/// Resolves the frame's interaction states. `entries` is the UI stack in
/// back-to-front order with each node's visible rectangle and focus
/// policy; `pointer` is the sampled pointer position, if the pointer is
/// over the window; `pressed` is the primary button's sampled state.
/// Exactly the topmost blocking entry under the pointer (if one exists)
/// resolves to `Hovered` or `Pressed`; every other entry resolves to
/// `Idle`.
pub fn ui_focus_system(entries: &Vec<HitEntry>, pointer: &Option<(i64, i64)>, pressed: bool) -> (out:
    Vec<(u64, Interaction)>)
    ensures
        out@.len() == entries@.len(),
        forall|i: int|
            0 <= i < out@.len() ==> (#[trigger] out@[i]).0 == entries@[i].entity && out@[i].1
                == s_interaction_of(i, entries@, *pointer, pressed),
{
    let hit: Option<usize> = match pointer {
        Option::Some(p) => hit_index(entries, p.0, p.1),
        Option::None => Option::None,
    };
    let mut out: Vec<(u64, Interaction)> = Vec::new();
    let mut i: usize = 0;
    while i < entries.len()
        invariant
            0 <= i <= entries@.len(),
            out@.len() == i,
            match hit {
                Option::Some(k) => pointer is Some && s_hit_index(
                    entries@,
                    (pointer->0).0 as int,
                    (pointer->0).1 as int,
                ) == Option::Some(k as int),
                Option::None => pointer is Some ==> s_hit_index(
                    entries@,
                    (pointer->0).0 as int,
                    (pointer->0).1 as int,
                ) is None,
            },
            forall|j: int|
                0 <= j < i ==> (#[trigger] out@[j]).0 == entries@[j].entity && out@[j].1
                    == s_interaction_of(j, entries@, *pointer, pressed),
        decreases entries@.len() - i,
    {
        let state = match hit {
            Option::Some(k) => if k == i {
                if pressed {
                    Interaction::Pressed
                } else {
                    Interaction::Hovered
                }
            } else {
                Interaction::Idle
            },
            Option::None => Interaction::Idle,
        };
        out.push((entries[i].entity, state));
        i = i + 1;
    }
    out
}

/// If a blocking entry at `i` contains the pointer, the resolved hit is at
/// `i` or above it: blocking nodes shadow everything painted below them.
pub proof fn lemma_hit_at_least(s: Seq<HitEntry>, i: int, x: int, y: int)
    requires
        0 <= i < s.len(),
        s[i].blocking,
        s_contains(s[i].rect, x, y),
    ensures
        s_hit_index(s, x, y) is Some,
        s_hit_index(s, x, y)->0 >= i,
    decreases s,
{
    if !(s.last().blocking && s_contains(s.last().rect, x, y)) {
        lemma_hit_at_least(s.drop_last(), i, x, y);
    }
}

/// The resolved hit, when there is one, is a blocking entry containing the
/// pointer.
pub proof fn lemma_hit_is_hit(s: Seq<HitEntry>, x: int, y: int)
    requires
        s_hit_index(s, x, y) is Some,
    ensures
        0 <= s_hit_index(s, x, y)->0 < s.len(),
        s[s_hit_index(s, x, y)->0].blocking,
        s_contains(s[s_hit_index(s, x, y)->0].rect, x, y),
    decreases s,
{
    if s.len() > 0 && !(s.last().blocking && s_contains(s.last().rect, x, y)) {
        lemma_hit_is_hit(s.drop_last(), x, y);
    }
}

/// A pointer position outside every entry's visible rectangle hovers or
/// presses nothing: every node resolves to `Idle`.
pub proof fn lemma_pointer_outside_all_idle(
    s: Seq<HitEntry>,
    x: i64,
    y: i64,
    pressed: bool,
    i: int,
)
    requires
        forall|j: int| 0 <= j < s.len() ==> !s_contains((#[trigger] s[j]).rect, x as int, y as int),
    ensures
        s_hit_index(s, x as int, y as int) is None,
        s_interaction_of(i, s, Option::Some((x, y)), pressed) == Interaction::Idle,
{
    if s_hit_index(s, x as int, y as int) is Some {
        lemma_hit_is_hit(s, x as int, y as int);
    }
}

/// A blocking node painted above a node whose visible rectangle it fully
/// covers prevents the lower node from ever being hovered or pressed,
/// whatever the pointer position and button state.
pub proof fn lemma_occluded_never_hit(
    s: Seq<HitEntry>,
    upper: int,
    lower: int,
    pointer: Option<(i64, i64)>,
    pressed: bool,
)
    requires
        0 <= lower < upper < s.len(),
        s[upper].blocking,
        s_rect_sub(s[lower].rect, s[upper].rect),
    ensures
        s_interaction_of(lower, s, pointer, pressed) == Interaction::Idle,
{
    if pointer is Some {
        let x = (pointer->0).0 as int;
        let y = (pointer->0).1 as int;
        if s_hit_index(s, x, y) == Option::Some(lower) {
            lemma_hit_is_hit(s, x, y);
            assert(s_contains(s[lower].rect, x, y));
            assert(s_contains(s[upper].rect, x, y));
            lemma_hit_at_least(s, upper, x, y);
        }
    }
}

/// A fully clipped node — one whose visible rectangle has no area — is
/// never hovered or pressed, regardless of pointer position.
pub proof fn lemma_zero_area_never_hit(
    s: Seq<HitEntry>,
    i: int,
    pointer: Option<(i64, i64)>,
    pressed: bool,
)
    requires
        0 <= i < s.len(),
        s[i].rect.min_x == s[i].rect.max_x || s[i].rect.min_y == s[i].rect.max_y,
    ensures
        s_interaction_of(i, s, pointer, pressed) == Interaction::Idle,
{
    if pointer is Some {
        let x = (pointer->0).0 as int;
        let y = (pointer->0).1 as int;
        if s_hit_index(s, x, y) == Option::Some(i) {
            lemma_hit_is_hit(s, x, y);
        }
    }
}

/// At most one node leaves `Idle` in a frame: two distinct positions can
/// never both be hovered or pressed, since only the topmost hit is chosen.
pub proof fn lemma_sole_interaction(
    s: Seq<HitEntry>,
    i: int,
    j: int,
    pointer: Option<(i64, i64)>,
    pressed: bool,
)
    requires
        i != j,
    ensures
        s_interaction_of(i, s, pointer, pressed) == Interaction::Idle || s_interaction_of(
            j,
            s,
            pointer,
            pressed,
        ) == Interaction::Idle,
{
}

/// One edge-triggered interaction transition: a node's state changed
/// between the previous frame and this one.
#[derive(Clone, Copy, Debug, PartialEq, Eq, Structural)]
pub struct InteractionChange {
    pub entity: u64,
    pub was: Interaction,
    pub now: Interaction,
}

/// The transitions between two aligned interaction snapshots: one change
/// record per position whose state differs, in stack order.
pub open spec fn s_changes(
    prev: Seq<(u64, Interaction)>,
    now: Seq<(u64, Interaction)>,
    from: int,
) -> Seq<InteractionChange>
    decreases prev.len() - from,
{
    if from < 0 || from >= prev.len() || from >= now.len() {
        Seq::empty()
    } else {
        (if prev[from].1 != now[from].1 {
            seq![
                InteractionChange {
                    entity: now[from].0,
                    was: prev[from].1,
                    now: now[from].1,
                },
            ]
        } else {
            Seq::empty()
        }) + s_changes(prev, now, from + 1)
    }
}

/// Derives the frame's edge-triggered interaction events: entering or
/// leaving `Hovered`, press-down and press-up appear as discrete changes.
pub fn interaction_changes(prev: &Vec<(u64, Interaction)>, now: &Vec<(u64, Interaction)>) -> (out:
    Vec<InteractionChange>)
    ensures
        out@ == s_changes(prev@, now@, 0),
{
    let mut out: Vec<InteractionChange> = Vec::new();
    let mut i: usize = 0;
    let n = if prev.len() <= now.len() {
        prev.len()
    } else {
        now.len()
    };
    while i < n
        invariant
            0 <= i <= n,
            n == if prev@.len() <= now@.len() {
                prev@.len()
            } else {
                now@.len()
            },
            out@ + s_changes(prev@, now@, i as int) == s_changes(prev@, now@, 0),
        decreases n - i,
    {
        let ghost pre = out@;
        let (pe, pi) = prev[i];
        let (ne, ni) = now[i];
        if !interaction_eq(pi, ni) {
            out.push(InteractionChange { entity: ne, was: pi, now: ni });
        }
        proof {
            assert(out@ + s_changes(prev@, now@, i + 1) =~= pre + s_changes(
                prev@,
                now@,
                i as int,
            ));
        }
        i = i + 1;
    }
    proof {
        assert(out@ =~= out@ + s_changes(prev@, now@, n as int));
        assert(out@ =~= s_changes(prev@, now@, 0));
    }
    out
}

/// Equality of interaction states.
fn interaction_eq(a: Interaction, b: Interaction) -> (r: bool)
    ensures
        r == (a == b),
{
    match (a, b) {
        (Interaction::Pressed, Interaction::Pressed) => true,
        (Interaction::Hovered, Interaction::Hovered) => true,
        (Interaction::Idle, Interaction::Idle) => true,
        _ => false,
    }
}

/// The focus policies of the subtree rooted at `n`, in depth-first order.
pub open spec fn s_policies(n: UiNode) -> Seq<(u64, FocusPolicy)>
    decreases n, 0int,
{
    seq![(n.entity, n.focus_policy)] + s_policies_seq(n.children@, 0)
}

/// Focus policies of the subtrees `s[from..]`.
pub open spec fn s_policies_seq(s: Seq<UiNode>, from: int) -> Seq<(u64, FocusPolicy)>
    decreases s, s.len() - from + 1,
{
    if from < 0 || from >= s.len() {
        Seq::empty()
    } else {
        s_policies(s[from]) + s_policies_seq(s, from + 1)
    }
}

/// Appends the focus policies of one subtree in depth-first order.
fn policies_rec(n: &UiNode, out: &mut Vec<(u64, FocusPolicy)>)
    ensures
        final(out)@ == old(out)@ + s_policies(*n),
    decreases *n,
{
    out.push((n.entity, n.focus_policy));
    proof {
        assert(out@ + s_policies_seq(n.children@, 0) =~= old(out)@ + s_policies(*n));
    }
    let mut i: usize = 0;
    while i < n.children.len()
        invariant
            0 <= i <= n.children@.len(),
            out@ + s_policies_seq(n.children@, i as int) == old(out)@ + s_policies(*n),
        decreases n.children@.len() - i,
    {
        let ghost pre = out@;
        policies_rec(&n.children[i], out);
        proof {
            assert(out@ + s_policies_seq(n.children@, i + 1) =~= pre + s_policies_seq(
                n.children@,
                i as int,
            ));
        }
        i = i + 1;
    }
    proof {
        assert(out@ =~= out@ + s_policies_seq(n.children@, n.children@.len() as int));
    }
}

/// Collects every node's focus policy in depth-first order, for assembling
/// the focus resolver's input.
pub fn collect_focus_policies(n: &UiNode) -> (out: Vec<(u64, FocusPolicy)>)
    ensures
        out@ == s_policies(*n),
{
    let mut out: Vec<(u64, FocusPolicy)> = Vec::new();
    policies_rec(n, &mut out);
    proof {
        assert(out@ =~= s_policies(*n));
    }
    out
}

/// First focus policy recorded for an entity, if any.
pub open spec fn s_find_policy(s: Seq<(u64, FocusPolicy)>, e: u64, from: int) -> Option<
    FocusPolicy,
>
    decreases s.len() - from,
{
    if from < 0 || from >= s.len() {
        Option::None
    } else if s[from].0 == e {
        Option::Some(s[from].1)
    } else {
        s_find_policy(s, e, from + 1)
    }
}

/// Looks an entity's focus policy up by linear search (first match).
pub fn find_policy(v: &Vec<(u64, FocusPolicy)>, e: u64) -> (r: Option<FocusPolicy>)
    ensures
        r == s_find_policy(v@, e, 0),
{
    let mut i: usize = 0;
    while i < v.len()
        invariant
            0 <= i <= v@.len(),
            s_find_policy(v@, e, 0) == s_find_policy(v@, e, i as int),
        decreases v@.len() - i,
    {
        if v[i].0 == e {
            return Option::Some(v[i].1);
        }
        i = i + 1;
    }
    Option::None
}

/// The hit entry the frame assembles for one stacked entity: its recorded
/// visible rectangle (a zero rectangle when none is recorded) and whether
/// its recorded policy blocks (pass-through when none is recorded).
pub open spec fn s_entry_of(
    e: u64,
    rects: Seq<(u64, Rect)>,
    policies: Seq<(u64, FocusPolicy)>,
) -> HitEntry {
    HitEntry {
        entity: e,
        rect: match crate::update::s_find_rect(rects, e, 0) {
            Option::Some(r) => r,
            Option::None => crate::geometry::s_zero_rect(),
        },
        blocking: crate::focus::s_find_policy(policies, e, 0) == Option::Some(FocusPolicy::Block),
    }
}

/// Assembles the focus resolver's input from the frame's UI stack, the
/// clipping pass's visible rectangles and the tree's focus policies: one
/// entry per stacked entity, in stack (back-to-front) order. An entity
/// without recorded geometry gets a zero rectangle; one without a recorded
/// policy passes pointer events through.
pub fn build_hit_entries(
    stack: &crate::stack::UiStack,
    rects: &Vec<(u64, Rect)>,
    policies: &Vec<(u64, FocusPolicy)>,
) -> (out: Vec<HitEntry>)
    ensures
        out@.len() == stack.uinodes@.len(),
        forall|i: int|
            0 <= i < out@.len() ==> #[trigger] out@[i] == s_entry_of(
                stack.uinodes@[i],
                rects@,
                policies@,
            ),
{
    let mut out: Vec<HitEntry> = Vec::new();
    let mut i: usize = 0;
    while i < stack.uinodes.len()
        invariant
            0 <= i <= stack.uinodes@.len(),
            out@.len() == i,
            forall|j: int|
                0 <= j < i ==> #[trigger] out@[j] == s_entry_of(
                    stack.uinodes@[j],
                    rects@,
                    policies@,
                ),
        decreases stack.uinodes@.len() - i,
    {
        let e = stack.uinodes[i];
        let r = match crate::update::find_rect(rects, e) {
            Option::Some(r) => r,
            Option::None => Rect { min_x: 0, min_y: 0, max_x: 0, max_y: 0 },
        };
        let blocking = match find_policy(policies, e) {
            Option::Some(FocusPolicy::Block) => true,
            _ => false,
        };
        out.push(HitEntry { entity: e, rect: r, blocking });
        i = i + 1;
    }
    out
}

} // verus!
