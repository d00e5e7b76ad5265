//! Dispatch-table identities and the shared downcast comparison.
//!
//! Each concrete type implementing an interface owns one dispatch table,
//! emitted once and stable for the program's lifetime.  Its address is an
//! opaque pointer-sized value that identifies the type; it is obtained from
//! the type alone, never from a live instance.  The registry models that
//! emission: it hands out one identity per registered type, each distinct
//! from every identity issued before it.  Downcasting compares identities
//! and nothing else.

use crate::layout::{power_of_two, WORD_BYTES};
use vstd::prelude::*;

verus! {

/// An opaque, pointer-sized value uniquely identifying one concrete type's
/// dispatch table.  Never dereferenced; only compared for identity.
#[derive(Clone, Copy, PartialEq, Eq, Structural, Debug)]
pub struct DispatchTableRef {
    pub id: usize,
}

/// Everything construction and teardown need to know about a concrete
/// payload type: its dispatch-table identity, its size and alignment, and
/// whether its destruction logic is a no-op (which lets the collected
/// backend skip registering a finalizer).
#[derive(Clone, Copy, PartialEq, Eq, Structural, Debug)]
pub struct TypeInfo {
    pub dispatch: DispatchTableRef,
    pub size: usize,
    pub align: usize,
    pub drop_is_noop: bool,
}

/// A legal type description: alignments are strictly positive powers of
/// two, and the type fits alongside a dispatch slot in one allocation.
pub open spec fn type_info_wf(info: TypeInfo) -> bool {
    &&& power_of_two(info.align as int)
    &&& info.size + info.align + WORD_BYTES <= usize::MAX
}

/// The source of dispatch-table identities, standing for the program image
/// in which each concrete type's table is emitted exactly once.  Identities
/// are issued in increasing order, so any two registered types can be told
/// apart by comparing them.
pub struct DispatchRegistry {
    pub next_id: usize,
}

impl DispatchRegistry {
    /// An image with no tables emitted yet.
    pub fn new() -> (r: DispatchRegistry)
        ensures
            r.next_id == 0,
    {
        DispatchRegistry { next_id: 0 }
    }

    /// Derive the dispatch-table identity for one concrete type, given only
    /// the type's geometry and destruction behaviour; no live instance is
    /// involved.  The identity issued is distinct from every identity this
    /// registry issued before.
    pub fn register(&mut self, size: usize, align: usize, drop_is_noop: bool) -> (info: TypeInfo)
        requires
            power_of_two(align as int),
            size + align + WORD_BYTES <= usize::MAX,
            old(self).next_id < usize::MAX,
        ensures
            info.dispatch.id == old(self).next_id,
            final(self).next_id == old(self).next_id + 1,
            info.size == size,
            info.align == align,
            info.drop_is_noop == drop_is_noop,
            type_info_wf(info),
    {
        let id = self.next_id;
        self.next_id = self.next_id + 1;
        TypeInfo { dispatch: DispatchTableRef { id }, size, align, drop_is_noop }
    }
}

/// The downcast comparison shared by every backend: a stored dispatch
/// identity matches a target type exactly when the two identities are the
/// same value.  This is sound because each type's table is emitted once and
/// its address never moves.
pub fn identity_matches(stored: DispatchTableRef, target: DispatchTableRef) -> (r: bool)
    ensures
        r == (stored.id == target.id),
{
    stored.id == target.id
}

} // verus!
