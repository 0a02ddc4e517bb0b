//! The node tree mirror's handle table: a bijection between owning
//! entities and layout-engine handles. Handles are created lazily on first
//! sync, never reused across distinct entities (a monotone counter issues
//! them), and pruned when the owning entity is removed — before the next
//! layout pass, so no dangling handle survives a frame. Styles are stored
//! sanitized: translation is total and fails closed by clamping.
use vstd::prelude::*;

use crate::ui_node::{s_sanitize, sanitize_style, style_wf, Style};

verus! {

/// One mirror entry: an entity, its layout handle and its current style.
#[derive(Clone, Copy, Debug)]
pub struct MirrorEntry {
    pub entity: u64,
    pub handle: u64,
    pub style: Style,
}

/// The mirror's handle table and handle source.
pub struct UiSurface {
    /// Live entries; entities and handles are each unique.
    pub entries: Vec<MirrorEntry>,
    /// Next handle to issue; greater than every handle ever issued.
    pub next_handle: u64,
}

/// The mirror invariant: entities are unique (each entity has exactly one
/// handle), handles are unique (no handle serves two entities), every
/// handle was issued below the counter, and every stored style is
/// well-formed.
pub open spec fn surface_wf(u: UiSurface) -> bool {
    &&& forall|i: int, j: int|
        0 <= i < j < u.entries@.len() ==> (#[trigger] u.entries@[i]).entity != (
        #[trigger] u.entries@[j]).entity
    &&& forall|i: int, j: int|
        0 <= i < j < u.entries@.len() ==> (#[trigger] u.entries@[i]).handle != (
        #[trigger] u.entries@[j]).handle
    &&& forall|i: int| 0 <= i < u.entries@.len() ==> (#[trigger] u.entries@[i]).handle < u.next_handle
    &&& forall|i: int| 0 <= i < u.entries@.len() ==> style_wf((#[trigger] u.entries@[i]).style)
}

/// Whether the table has an entry for `e`.
pub open spec fn s_has_entity(s: Seq<MirrorEntry>, e: u64) -> bool {
    exists|i: int| 0 <= i < s.len() && (#[trigger] s[i]).entity == e
}

/// The handle the table maps `e` to (meaningful when unique).
pub open spec fn s_handle_of(s: Seq<MirrorEntry>, e: u64) -> u64 {
    s[choose|i: int| 0 <= i < s.len() && (#[trigger] s[i]).entity == e].handle
}

impl UiSurface {
    /// An empty mirror: no entries, handles start at zero.
    pub fn new() -> (u: UiSurface)
        ensures
            surface_wf(u),
            u.entries@.len() == 0,
            u.next_handle == 0,
    {
        UiSurface { entries: Vec::new(), next_handle: 0 }
    }

    /// First table index holding `e`, if any.
    fn find(&self, e: u64) -> (r: Option<usize>)
        ensures
            match r {
                Option::Some(k) => 0 <= k < self.entries@.len() && self.entries@[k as int].entity
                    == e,
                Option::None => !s_has_entity(self.entries@, e),
            },
    {
        let mut i: usize = 0;
        while i < self.entries.len()
            invariant
                0 <= i <= self.entries@.len(),
                forall|j: int| 0 <= j < i ==> (#[trigger] self.entries@[j]).entity != e,
            decreases self.entries@.len() - i,
        {
            if self.entries[i].entity == e {
                return Option::Some(i);
            }
            i = i + 1;
        }
        Option::None
    }

    /// The handle mirrored for an entity, if the entity is live.
    pub fn get_handle(&self, e: u64) -> (r: Option<u64>)
        requires
            surface_wf(*self),
        ensures
            r is Some <==> s_has_entity(self.entries@, e),
            r is Some ==> r->0 == s_handle_of(self.entries@, e),
    {
        match self.find(e) {
            Option::Some(k) => {
                let h = self.entries[k].handle;
                proof {
                    let w = choose|i: int|
                        0 <= i < self.entries@.len() && (#[trigger] self.entries@[i]).entity == e;
                    if w != k as int {
                        assert(self.entries@[w].entity != self.entries@[k as int].entity);
                    }
                }
                Option::Some(h)
            },
            Option::None => Option::None,
        }
    }

    /// Syncs one node into the mirror: updates the stored style of a live
    /// entity in place (its handle is kept), or creates a fresh entry under
    /// a handle never issued before. The style is stored sanitized, so the
    /// translation is total. The bijection is preserved.
    pub fn upsert_node(&mut self, e: u64, style: &Style)
        requires
            surface_wf(*old(self)),
            old(self).next_handle < u64::MAX,
        ensures
            surface_wf(*final(self)),
            s_has_entity(final(self).entries@, e),
            if s_has_entity(old(self).entries@, e) {
                exists|k: int|
                    0 <= k < old(self).entries@.len() && (#[trigger] old(self).entries@[k]).entity
                        == e && final(self).entries@ == old(self).entries@.update(
                        k,
                        MirrorEntry {
                            entity: e,
                            handle: old(self).entries@[k].handle,
                            style: s_sanitize(*style),
                        },
                    ) && final(self).next_handle == old(self).next_handle
            } else {
                final(self).entries@ == old(self).entries@.push(
                    MirrorEntry { entity: e, handle: old(self).next_handle, style: s_sanitize(*style) },
                ) && final(self).next_handle == old(self).next_handle + 1
            },
    {
        let clean = sanitize_style(style);
        match self.find(e) {
            Option::Some(k) => {
                let h = self.entries[k].handle;
                self.entries[k] = MirrorEntry { entity: e, handle: h, style: clean };
                proof {
                    assert(final(self).entries@[k as int].entity == e);
                }
            },
            Option::None => {
                let h = self.next_handle;
                self.entries.push(MirrorEntry { entity: e, handle: h, style: clean });
                self.next_handle = self.next_handle + 1;
                proof {
                    assert(final(self).entries@[old(self).entries@.len() as int].entity == e);
                }
            },
        }
    }

    /// Prunes the mirror entry of a removed entity: its handle is released
    /// and absent afterwards; every other entry is untouched. Removing an
    /// unknown entity is a no-op.
    pub fn remove_entity(&mut self, e: u64)
        requires
            surface_wf(*old(self)),
        ensures
            surface_wf(*final(self)),
            !s_has_entity(final(self).entries@, e),
            final(self).next_handle == old(self).next_handle,
            if s_has_entity(old(self).entries@, e) {
                exists|k: int|
                    0 <= k < old(self).entries@.len() && (#[trigger] old(self).entries@[k]).entity
                        == e && final(self).entries@ == old(self).entries@.remove(k)
            } else {
                final(self).entries@ == old(self).entries@
            },
    {
        match self.find(e) {
            Option::Some(k) => {
                self.entries.remove(k);
                proof {
                    let ghost ne = final(self).entries@;
                    let ghost oe = old(self).entries@;
                    assert forall|i: int| 0 <= i < ne.len() implies (#[trigger] ne[i]).entity
                        != e by {
                        if i < k as int {
                            assert(ne[i] == oe[i]);
                            if oe[i].entity == e {
                                assert(oe[i].entity == oe[k as int].entity);
                            }
                        } else {
                            assert(ne[i] == oe[i + 1]);
                            if oe[i + 1].entity == e {
                                assert(oe[i + 1].entity == oe[k as int].entity);
                            }
                        }
                    }
                }
            },
            Option::None => {},
        }
    }

    /// Number of live mirror entries.
    pub fn len(&self) -> (n: usize)
        ensures
            n == self.entries@.len(),
    {
        self.entries.len()
    }
}

} // verus!
