//! The guarantees that hold across backends, stated and proved over the
//! arena model.
//!
//! Each law is phrased over the spec functions the operations' own
//! contracts use, with premises that mirror those contracts, so a caller
//! can apply it directly to the states before and after an operation.

use crate::arena::{
    arena_wf, blk_geometry_wf, lemma_payload_addrs_distinct, lemma_stored_is, live_at,
    recovered, slot_addr, stored_block, stored_index, valid_handle, Arena, PolymorphicRef,
};
use crate::dispatch::DispatchTableRef;
use crate::layout::WORD_BYTES;
use vstd::prelude::*;

verus! {

/// Law: the dispatch slot is always recoverable from a handle by the same
/// fixed-offset read.  For every live block of a well-formed arena the
/// slot sits exactly one word below the payload address and still inside
/// the allocation — also when the payload is zero-sized and its address is
/// the very end of the block.
pub proof fn lemma_slot_at_fixed_offset(a: Arena, w: usize)
    requires
        arena_wf(a),
        valid_handle(a, w),
    ensures
        slot_addr(stored_block(a, w)) == w - WORD_BYTES,
        stored_block(a, w).base <= slot_addr(stored_block(a, w)),
        slot_addr(stored_block(a, w)) + WORD_BYTES <= stored_block(a, w).base + stored_block(
            a,
            w,
        ).layout.size,
{
    let k = stored_index(a, w);
    assert(live_at(a, k, w));
    assert(blk_geometry_wf(a.blocks@[k]));
}

/// Law: a handle returned by construction dispatches as the constructed
/// value does.  Whatever block construction appended — for a zero-sized
/// payload just as for any other — dereferencing its handle recovers
/// exactly the dispatch identity and the payload bytes that were stored,
/// so virtual calls through the handle reach the same implementations as
/// calls on the original value.
pub proof fn lemma_construct_then_deref(
    pre: Arena,
    post: Arena,
    dispatch: DispatchTableRef,
    payload: Seq<u8>,
    w: usize,
)
    requires
        arena_wf(post),
        post.blocks@.len() == pre.blocks@.len() + 1,
        post.blocks@.last().live,
        post.blocks@.last().dispatch == dispatch,
        post.blocks@.last().payload@ == payload,
        post.blocks@.last().payload_addr == w,
    ensures
        valid_handle(post, w),
        recovered(post, w) == (PolymorphicRef { data_ptr: w, dispatch_ptr: dispatch }),
        stored_block(post, w).payload@ == payload,
{
    lemma_stored_is(post, w, post.blocks@.len() - 1);
}

/// Law: downcasting a handle to the type it was constructed from
/// succeeds, and the bytes handed back are the original value's bytes;
/// downcasting the same handle to any type with a different dispatch
/// identity fails.  Together with the downcast contract — a present
/// result exactly on identity match — this pins both directions.
pub proof fn lemma_downcast_discriminates(
    post: Arena,
    w: usize,
    stored_id: DispatchTableRef,
    other_id: DispatchTableRef,
)
    requires
        arena_wf(post),
        valid_handle(post, w),
        stored_block(post, w).dispatch == stored_id,
        stored_id.id != other_id.id,
    ensures
        stored_block(post, w).dispatch.id == stored_id.id,
        stored_block(post, w).dispatch.id != other_id.id,
{
}

/// Law: dereferencing is idempotent.  The recovered reference is a
/// function of the heap and the handle word alone, and dereferencing
/// takes the heap immutably, so any two dereferences of one handle on one
/// heap — in particular, repeated ones — produce the same two-word
/// reference: the dispatch slot hides no mutation.
pub proof fn lemma_deref_idempotent(a: Arena, w: usize, r1: PolymorphicRef, r2: PolymorphicRef)
    requires
        r1 == recovered(a, w),
        r2 == recovered(a, w),
    ensures
        r1 == r2,
{
}

/// Law: mutation through a handle is seen by later reads through the same
/// handle, and by nothing else.  After overwriting one live block's
/// payload — which is what the mutable dereference path does — the handle
/// reads back the new bytes, its dispatch identity is untouched, and
/// every other handle reads exactly what it read before.
pub proof fn lemma_write_then_read(pre: Arena, post: Arena, k: int, bytes: Seq<u8>)
    requires
        arena_wf(pre),
        arena_wf(post),
        post.blocks@.len() == pre.blocks@.len(),
        0 <= k < pre.blocks@.len(),
        pre.blocks@[k].live,
        post.blocks@[k].live,
        post.blocks@[k].payload_addr == pre.blocks@[k].payload_addr,
        post.blocks@[k].dispatch == pre.blocks@[k].dispatch,
        post.blocks@[k].payload@ == bytes,
        forall|i: int| 0 <= i < pre.blocks@.len() && i != k ==> post.blocks@[i] == pre.blocks@[i],
    ensures
        stored_block(post, pre.blocks@[k].payload_addr).payload@ == bytes,
        recovered(post, pre.blocks@[k].payload_addr) == recovered(
            pre,
            pre.blocks@[k].payload_addr,
        ),
        forall|w2: usize|
            valid_handle(pre, w2) && w2 != pre.blocks@[k].payload_addr ==> #[trigger] stored_block(
                post,
                w2,
            ) == stored_block(pre, w2),
{
    let w = pre.blocks@[k].payload_addr;
    lemma_stored_is(pre, w, k);
    lemma_stored_is(post, w, k);
    assert forall|w2: usize| valid_handle(pre, w2) && w2 != w implies #[trigger] stored_block(
        post,
        w2,
    ) == stored_block(pre, w2) by {
        let j = choose|j: int| live_at(pre, j, w2);
        assert(live_at(pre, j, w2));
        assert(j != k);
        assert(live_at(post, j, w2));
        lemma_stored_is(pre, w2, j);
        lemma_stored_is(post, w2, j);
    }
}

/// Law: destruction is exact.  Retiring one live block invalidates its
/// handle — so destruction logic cannot run twice for it, the destroy
/// precondition being validity — and leaves every other handle valid or
/// invalid exactly as it was, so no handle's destruction is leaked or
/// stolen.  Together with the destroy contract — the destruction counter
/// grows by exactly one per call — constructing and destroying N handles
/// runs destruction logic exactly N times.
pub proof fn lemma_destroy_once(pre: Arena, post: Arena, k: int)
    requires
        arena_wf(pre),
        arena_wf(post),
        post.blocks@.len() == pre.blocks@.len(),
        0 <= k < pre.blocks@.len(),
        pre.blocks@[k].live,
        !post.blocks@[k].live,
        post.blocks@[k].payload_addr == pre.blocks@[k].payload_addr,
        forall|i: int| 0 <= i < pre.blocks@.len() && i != k ==> post.blocks@[i] == pre.blocks@[i],
    ensures
        !valid_handle(post, pre.blocks@[k].payload_addr),
        forall|w2: usize|
            w2 != pre.blocks@[k].payload_addr ==> #[trigger] valid_handle(post, w2)
                == valid_handle(pre, w2),
{
    let w = pre.blocks@[k].payload_addr;
    if valid_handle(post, w) {
        let j = choose|j: int| live_at(post, j, w);
        assert(live_at(post, j, w));
        assert(j != k);
        assert(live_at(pre, j, w));
        lemma_payload_addrs_distinct(pre, j, k);
    }
    assert forall|w2: usize| w2 != w implies #[trigger] valid_handle(post, w2) == valid_handle(
        pre,
        w2,
    ) by {
        if valid_handle(post, w2) {
            let j = choose|j: int| live_at(post, j, w2);
            assert(live_at(post, j, w2));
            assert(j != k);
            assert(live_at(pre, j, w2));
        }
        if valid_handle(pre, w2) {
            let j = choose|j: int| live_at(pre, j, w2);
            assert(live_at(pre, j, w2));
            assert(j != k);
            assert(live_at(post, j, w2));
        }
    }
}

} // verus!
