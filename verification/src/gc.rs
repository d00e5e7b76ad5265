//! The tracing-collected backend: handles whose allocation a collector
//! owns.
//!
//! Construction decides whether the collector must run a finalizer for the
//! block: when the payload type's destruction logic is a no-op the
//! registration is skipped, a pure optimisation with no behavioural
//! difference.  There is no explicit destroy — reclamation is the
//! collector's business once a block is unreachable, which is out of scope
//! here.  A `recover` operation turns a concretely-typed reference that
//! genuinely originated from this construction path back into a handle;
//! calling it on any other word is a precondition violation, not a checked
//! error.
//!
//! The compact union embedding serves collectors that scan the payload in
//! place: it demands that the payload sit immediately after the dispatch
//! slot with no gap, which holds exactly when the payload's alignment does
//! not exceed the slot's.  More strongly aligned payloads are refused at
//! construction by precondition; the limitation is kept as the design has
//! it.

use crate::arena::{
    arena_wf, recovered, stored_block, stored_index, valid_handle, Arena, NarrowHandle,
    PolymorphicRef,
};
use crate::dispatch::{type_info_wf, TypeInfo};
use crate::layout::{layout_spec, WORD_BYTES};
use vstd::prelude::*;

verus! {

/// The collector-owned heap: the shared arena core.  Blocks are reclaimed
/// by tracing, never through a handle.
pub struct GcHeap {
    pub arena: Arena,
}

/// A well-formed collected heap is a well-formed arena.
pub open spec fn gc_wf(h: GcHeap) -> bool {
    arena_wf(h.arena)
}

impl GcHeap {
    /// An empty collected heap.
    pub fn new() -> (h: GcHeap)
        ensures
            gc_wf(h),
            h.arena.blocks@.len() == 0,
            h.arena.next == 0,
    {
        GcHeap { arena: Arena::new() }
    }

    /// Move a payload value into a fresh collector-owned block and return
    /// its one-word handle.  A finalizer is registered exactly when the
    /// payload type's destruction logic is not a no-op; skipping it
    /// otherwise only spares the collector work.
    pub fn construct(&mut self, info: &TypeInfo, payload: Vec<u8>) -> (h: NarrowHandle)
        requires
            gc_wf(*old(self)),
            type_info_wf(*info),
            payload@.len() == info.size,
            old(self).arena.next + 2 * (info.align + WORD_BYTES) + info.size + WORD_BYTES
                <= usize::MAX,
        ensures
            gc_wf(*final(self)),
            final(self).arena.blocks@.len() == old(self).arena.blocks@.len() + 1,
            forall|i: int|
                0 <= i < old(self).arena.blocks@.len() ==> final(self).arena.blocks@[i]
                    == old(self).arena.blocks@[i],
            valid_handle(final(self).arena, h.word),
            stored_block(final(self).arena, h.word).dispatch == info.dispatch,
            stored_block(final(self).arena, h.word).payload@ == payload@,
            stored_block(final(self).arena, h.word).layout == layout_spec(
                info.size,
                info.align,
            ),
            stored_block(final(self).arena, h.word).finalizer_registered
                == !info.drop_is_noop,
            forall|i: int|
                0 <= i < old(self).arena.blocks@.len() ==> old(
                    self,
                ).arena.blocks@[i].payload_addr != h.word,
            h.word as int % info.align as int == 0,
            h.word as int % WORD_BYTES as int == 0,
    {
        let register_finalizer = !info.drop_is_noop;
        self.arena.construct(info, payload, register_finalizer)
    }

    /// The compact union embedding: identical storage, but the payload
    /// must start immediately after the dispatch slot with no padding, so
    /// the collector can scan it in place without following a pointer.
    /// Only payloads no more aligned than the slot qualify; the planner
    /// then inserts no gap at all.
    pub fn construct_embedded(&mut self, info: &TypeInfo, payload: Vec<u8>) -> (h: NarrowHandle)
        requires
            gc_wf(*old(self)),
            type_info_wf(*info),
            payload@.len() == info.size,
            info.align <= WORD_BYTES,
            old(self).arena.next + 2 * (info.align + WORD_BYTES) + info.size + WORD_BYTES
                <= usize::MAX,
        ensures
            gc_wf(*final(self)),
            final(self).arena.blocks@.len() == old(self).arena.blocks@.len() + 1,
            forall|i: int|
                0 <= i < old(self).arena.blocks@.len() ==> final(self).arena.blocks@[i]
                    == old(self).arena.blocks@[i],
            valid_handle(final(self).arena, h.word),
            stored_block(final(self).arena, h.word).dispatch == info.dispatch,
            stored_block(final(self).arena, h.word).payload@ == payload@,
            stored_block(final(self).arena, h.word).finalizer_registered
                == !info.drop_is_noop,
            stored_block(final(self).arena, h.word).layout.payload_offset == WORD_BYTES,
            stored_block(final(self).arena, h.word).layout.size == WORD_BYTES + info.size,
    {
        self.construct(info, payload)
    }

    /// Recover the two-word polymorphic reference for virtual calls.
    pub fn deref(&self, h: NarrowHandle) -> (r: PolymorphicRef)
        requires
            gc_wf(*self),
            valid_handle(self.arena, h.word),
        ensures
            r == recovered(self.arena, h.word),
    {
        self.arena.deref(h)
    }

    /// Read a copy of the stored object's bytes.
    pub fn read_payload(&self, h: NarrowHandle) -> (r: Vec<u8>)
        requires
            gc_wf(*self),
            valid_handle(self.arena, h.word),
        ensures
            r@ == stored_block(self.arena, h.word).payload@,
    {
        self.arena.read_payload(h)
    }

    /// The mutable counterpart of dereferencing.  The backend provides no
    /// synchronization: callers must already exclude concurrent access,
    /// which holding the heap exclusively does here.
    pub fn deref_mut_write(&mut self, h: NarrowHandle, bytes: Vec<u8>)
        requires
            gc_wf(*old(self)),
            valid_handle(old(self).arena, h.word),
            bytes@.len() == stored_block(old(self).arena, h.word).payload@.len(),
        ensures
            gc_wf(*final(self)),
            final(self).arena.blocks@.len() == old(self).arena.blocks@.len(),
            forall|i: int|
                0 <= i < old(self).arena.blocks@.len() && i != stored_index(
                    old(self).arena,
                    h.word,
                ) ==> final(self).arena.blocks@[i] == old(self).arena.blocks@[i],
            stored_index(final(self).arena, h.word) == stored_index(old(self).arena, h.word),
            stored_block(final(self).arena, h.word).payload@ == bytes@,
            recovered(final(self).arena, h.word) == recovered(old(self).arena, h.word),
    {
        self.arena.write_payload(h, bytes)
    }

    /// Try casting the handle to the concrete type `target` describes.
    pub fn downcast(&self, h: NarrowHandle, target: &TypeInfo) -> (r: Option<Vec<u8>>)
        requires
            gc_wf(*self),
            valid_handle(self.arena, h.word),
        ensures
            r.is_some() == (stored_block(self.arena, h.word).dispatch.id == target.dispatch.id),
            r.is_some() ==> r.unwrap()@ == stored_block(self.arena, h.word).payload@,
    {
        self.arena.downcast(h, target)
    }

    /// Convert a downcast, concretely-typed reference back into a handle
    /// of the interface type.  Sound only for a reference that genuinely
    /// came out of this construction path — the precondition the caller
    /// must uphold; it is not a checked error.
    pub fn recover(&self, data_ptr: usize) -> (h: NarrowHandle)
        requires
            gc_wf(*self),
            valid_handle(self.arena, data_ptr),
        ensures
            h.word == data_ptr,
            valid_handle(self.arena, h.word),
    {
        NarrowHandle { word: data_ptr }
    }
}

} // verus!
