//! Verified core of a retained-mode UI subsystem: a tree of styled nodes,
//! a flexbox layout pass over integer geometry, a stacking (paint-order)
//! resolver, a pointer focus resolver and a clipping/outline resolver.
//!
//! Per frame the host runs, in this order: tree/style synchronization
//! (`surface`), then `layout::ui_layout_system`, then — independently —
//! `stack::ui_stack_system`, then `update::update_clipping_system` and
//! `focus::ui_focus_system`. Every pass is a pure function of its inputs,
//! so a frame's resolution is independent and self-correcting.
#![verifier::loop_isolation(false)]

pub mod focus;
pub mod geometry;
pub mod layout;
pub mod stack;
pub mod surface;
pub mod ui_node;
pub mod update;

use vstd::prelude::*;

verus! {

/// Labels for the phases of the per-frame UI pipeline, in the order the
/// host scheduler must run them.
#[derive(Clone, Copy, Debug, PartialEq, Eq, Structural)]
pub enum UiSystem {
    /// After this phase, every node's geometry is resolved for the frame.
    Layout,
    /// After this phase, pointer interaction states are resolved.
    Focus,
    /// After this phase, the paint-order stack is rebuilt.
    Stack,
    /// After this phase, outline rectangles are resolved.
    Outlines,
}

} // verus!
