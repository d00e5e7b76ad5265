//! The manually-managed backend: handles that own their allocation
//! outright.
//!
//! A handle has exactly one owner; destruction is explicit, runs the stored
//! object's destruction logic exactly once, and then releases the block
//! using a layout recomputed from the stored object itself.  The heap
//! counts destruction-logic invocations, so that tearing down N handles is
//! observable as exactly N invocations, one per handle.

use crate::arena::{
    arena_wf, live_count, recovered, stored_block, stored_index, valid_handle, Arena,
    NarrowHandle, PolymorphicRef,
};
use crate::dispatch::{type_info_wf, TypeInfo};
use crate::layout::{layout_spec, WORD_BYTES};
use vstd::prelude::*;

verus! {

/// The single-owner heap: the shared arena core plus a count of how many
/// times destruction logic has run.
pub struct ManualHeap {
    pub arena: Arena,
    pub drop_count: usize,
}

/// A well-formed manual heap is a well-formed arena.
pub open spec fn manual_wf(h: ManualHeap) -> bool {
    arena_wf(h.arena)
}

impl ManualHeap {
    /// An empty heap: nothing allocated, no destruction logic run yet.
    pub fn new() -> (h: ManualHeap)
        ensures
            manual_wf(h),
            h.arena.blocks@.len() == 0,
            h.arena.next == 0,
            h.drop_count == 0,
    {
        ManualHeap { arena: Arena::new(), drop_count: 0 }
    }

    /// Move a payload value into a fresh combined block and return its
    /// one-word handle.  The caller owns the handle exclusively; the
    /// source value's bytes now live in the block and nowhere else.
    pub fn construct(&mut self, info: &TypeInfo, payload: Vec<u8>) -> (h: NarrowHandle)
        requires
            manual_wf(*old(self)),
            type_info_wf(*info),
            payload@.len() == info.size,
            old(self).arena.next + 2 * (info.align + WORD_BYTES) + info.size + WORD_BYTES
                <= usize::MAX,
        ensures
            manual_wf(*final(self)),
            final(self).drop_count == old(self).drop_count,
            final(self).arena.blocks@.len() == old(self).arena.blocks@.len() + 1,
            forall|i: int|
                0 <= i < old(self).arena.blocks@.len() ==> final(self).arena.blocks@[i]
                    == old(self).arena.blocks@[i],
            valid_handle(final(self).arena, h.word),
            stored_block(final(self).arena, h.word).dispatch == info.dispatch,
            stored_block(final(self).arena, h.word).payload@ == payload@,
            stored_block(final(self).arena, h.word).layout == layout_spec(
                info.size,
                info.align,
            ),
            forall|i: int|
                0 <= i < old(self).arena.blocks@.len() ==> old(
                    self,
                ).arena.blocks@[i].payload_addr != h.word,
            live_count(final(self).arena.blocks@) == live_count(old(self).arena.blocks@) + 1,
            h.word as int % info.align as int == 0,
            h.word as int % WORD_BYTES as int == 0,
    {
        self.arena.construct(info, payload, false)
    }

    /// Recover the two-word polymorphic reference for virtual calls.
    pub fn deref(&self, h: NarrowHandle) -> (r: PolymorphicRef)
        requires
            manual_wf(*self),
            valid_handle(self.arena, h.word),
        ensures
            r == recovered(self.arena, h.word),
    {
        self.arena.deref(h)
    }

    /// The mutable counterpart of dereferencing: overwrite the stored
    /// object's bytes through the handle, which requires exclusive access
    /// to the heap.  The dispatch slot and every other block are
    /// untouched, so later dereferences recover the same identity.
    pub fn deref_mut_write(&mut self, h: NarrowHandle, bytes: Vec<u8>)
        requires
            manual_wf(*old(self)),
            valid_handle(old(self).arena, h.word),
            bytes@.len() == stored_block(old(self).arena, h.word).payload@.len(),
        ensures
            manual_wf(*final(self)),
            final(self).drop_count == old(self).drop_count,
            final(self).arena.blocks@.len() == old(self).arena.blocks@.len(),
            forall|i: int|
                0 <= i < old(self).arena.blocks@.len() && i != stored_index(
                    old(self).arena,
                    h.word,
                ) ==> final(self).arena.blocks@[i] == old(self).arena.blocks@[i],
            stored_index(final(self).arena, h.word) == stored_index(old(self).arena, h.word),
            stored_block(final(self).arena, h.word).payload@ == bytes@,
            recovered(final(self).arena, h.word) == recovered(old(self).arena, h.word),
    {
        self.arena.write_payload(h, bytes)
    }

    /// Read a copy of the stored object's bytes.
    pub fn read_payload(&self, h: NarrowHandle) -> (r: Vec<u8>)
        requires
            manual_wf(*self),
            valid_handle(self.arena, h.word),
        ensures
            r@ == stored_block(self.arena, h.word).payload@,
    {
        self.arena.read_payload(h)
    }

    /// Try casting the handle to the concrete type `target` describes.
    pub fn downcast(&self, h: NarrowHandle, target: &TypeInfo) -> (r: Option<Vec<u8>>)
        requires
            manual_wf(*self),
            valid_handle(self.arena, h.word),
        ensures
            r.is_some() == (stored_block(self.arena, h.word).dispatch.id == target.dispatch.id),
            r.is_some() ==> r.unwrap()@ == stored_block(self.arena, h.word).payload@,
    {
        self.arena.downcast(h, target)
    }

    /// Destroy a handle: run the stored object's destruction logic through
    /// its recovered reference, then release the block using the layout
    /// recomputed from that same object.  Destruction runs exactly once —
    /// the handle is invalid afterwards, so a second destroy cannot meet
    /// this precondition — and no other handle is disturbed.
    pub fn destroy(&mut self, h: NarrowHandle)
        requires
            manual_wf(*old(self)),
            valid_handle(old(self).arena, h.word),
            old(self).drop_count < usize::MAX,
        ensures
            manual_wf(*final(self)),
            final(self).drop_count == old(self).drop_count + 1,
            final(self).arena.blocks@.len() == old(self).arena.blocks@.len(),
            forall|i: int|
                0 <= i < old(self).arena.blocks@.len() && i != stored_index(
                    old(self).arena,
                    h.word,
                ) ==> final(self).arena.blocks@[i] == old(self).arena.blocks@[i],
            !valid_handle(final(self).arena, h.word),
            forall|w2: usize|
                w2 != h.word ==> #[trigger] valid_handle(final(self).arena, w2) == valid_handle(
                    old(self).arena,
                    w2,
                ),
            live_count(final(self).arena.blocks@) == live_count(old(self).arena.blocks@) - 1,
            final(self).drop_count + live_count(final(self).arena.blocks@) == old(
                self,
            ).drop_count + live_count(old(self).arena.blocks@),
    {
        // Destruction logic runs first, through the recovered reference;
        // the block is still intact while it does.
        let _r = self.arena.deref(h);
        self.drop_count = self.drop_count + 1;
        // Then the block is released, with a layout recomputed from the
        // stored object rather than from the handle's static type.
        let _l = self.arena.retire(h);
    }
}

} // verus!
