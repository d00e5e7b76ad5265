//! The shared construction, recovery and teardown core.
//!
//! Memory is modelled explicitly: an [`Arena`] is a bump-allocated address
//! space holding combined blocks, each a dispatch slot followed by the
//! payload bytes at the offset the planner computed.  A [`NarrowHandle`]
//! stores only the payload address — one machine word.  Dereferencing
//! recovers the full two-word polymorphic reference by reading the
//! dispatch slot exactly one word below the payload; downcasting compares
//! the recovered identity against a target type's identity; retiring a
//! block recomputes the stored object's layout from the block itself and
//! releases it exactly once.

use crate::dispatch::{identity_matches, type_info_wf, DispatchTableRef, TypeInfo};
use crate::layout::{self, layout_spec, power_of_two, Layout, WORD_BYTES};
use vstd::prelude::*;

verus! {

/// One combined allocation: `[padding][dispatch slot][payload bytes]`.
/// `payload_addr` is the address of the first payload byte; the dispatch
/// slot occupies the word immediately below it.  A retired block keeps its
/// address range (the bump allocator never reuses it) but drops its bytes.
pub struct CombinedBlock {
    pub dispatch: DispatchTableRef,
    pub payload: Vec<u8>,
    pub payload_align: usize,
    pub base: usize,
    pub payload_addr: usize,
    pub layout: Layout,
    pub live: bool,
    pub finalizer_registered: bool,
}

/// A single-word reference to a combined allocation: just the payload
/// address.  The dispatch word is recoverable from it by a fixed-offset
/// read, so nothing else needs storing.
#[derive(Clone, Copy, PartialEq, Eq, Structural, Debug)]
pub struct NarrowHandle {
    pub word: usize,
}

/// The recovered two-word polymorphic reference: the payload address and
/// the dispatch-table identity.  Reconstructed on every dereference, never
/// persisted.
#[derive(Clone, Copy, PartialEq, Eq, Structural, Debug)]
pub struct PolymorphicRef {
    pub data_ptr: usize,
    pub dispatch_ptr: DispatchTableRef,
}

/// The address of a block's dispatch slot: always exactly one word below
/// the payload, whatever the payload's size or alignment.
pub open spec fn slot_addr(b: CombinedBlock) -> int {
    b.payload_addr - WORD_BYTES
}

/// Geometry every block keeps for its whole lifetime: the payload sits at
/// the planned offset inside the block, at least one word from its start,
/// so the dispatch slot lies within the allocation even for a zero-sized
/// payload (whose payload address may be the very end of the block).
pub open spec fn blk_geometry_wf(b: CombinedBlock) -> bool {
    &&& b.payload_addr == b.base + b.layout.payload_offset
    &&& WORD_BYTES <= b.layout.payload_offset
    &&& b.layout.payload_offset <= b.layout.size
}

/// A live block moreover carries exactly the bytes of the stored object,
/// and its recorded layout is the one the planner derives from that
/// object's own size and alignment.
pub open spec fn blk_wf(b: CombinedBlock) -> bool {
    &&& blk_geometry_wf(b)
    &&& power_of_two(b.payload_align as int)
    &&& b.layout == layout_spec(b.payload@.len() as usize, b.payload_align)
    &&& b.payload@.len() + b.layout.payload_offset == b.layout.size
}

/// The backend-independent allocation core: a bump allocator over an
/// explicit address space.  Blocks occupy disjoint, increasing address
/// ranges below the bump cursor `next`.
pub struct Arena {
    pub blocks: Vec<CombinedBlock>,
    pub next: usize,
}

/// The arena invariant: every block is geometrically sound, every live
/// block holds its object's bytes, and address ranges are disjoint and
/// increasing, all below the bump cursor.
pub open spec fn arena_wf(a: Arena) -> bool {
    &&& forall|i: int| 0 <= i < a.blocks@.len() ==> blk_geometry_wf(#[trigger] a.blocks@[i])
    &&& forall|i: int|
        0 <= i < a.blocks@.len() && a.blocks@[i].live ==> blk_wf(#[trigger] a.blocks@[i])
    &&& forall|i: int|
        0 <= i < a.blocks@.len() ==> (#[trigger] a.blocks@[i]).base + a.blocks@[i].layout.size
            <= a.next
    &&& forall|i: int, j: int|
        #![trigger a.blocks@[i], a.blocks@[j]]
        0 <= i < j < a.blocks@.len() ==> a.blocks@[i].base + a.blocks@[i].layout.size
            <= a.blocks@[j].base
    &&& a.next + WORD_BYTES <= usize::MAX
}

/// Block `i` is the live block the handle word `w` refers to.
pub open spec fn live_at(a: Arena, i: int, w: usize) -> bool {
    &&& 0 <= i < a.blocks@.len()
    &&& a.blocks@[i].live
    &&& a.blocks@[i].payload_addr == w
}

/// The word `w` is a handle to some live block of `a`.
pub open spec fn valid_handle(a: Arena, w: usize) -> bool {
    exists|i: int| live_at(a, i, w)
}

/// The index of the live block `w` refers to (unique in a well-formed
/// arena, since live payload addresses never collide).
pub open spec fn stored_index(a: Arena, w: usize) -> int {
    choose|i: int| live_at(a, i, w)
}

/// The live block `w` refers to.
pub open spec fn stored_block(a: Arena, w: usize) -> CombinedBlock {
    a.blocks@[stored_index(a, w)]
}

/// The polymorphic reference a dereference of `w` reconstructs: the
/// payload address paired with the stored dispatch identity.
pub open spec fn recovered(a: Arena, w: usize) -> PolymorphicRef {
    PolymorphicRef { data_ptr: w, dispatch_ptr: stored_block(a, w).dispatch }
}

/// How many blocks of `s` are still live.
pub open spec fn live_count(s: Seq<CombinedBlock>) -> int
    decreases s.len(),
{
    if s.len() == 0 {
        0
    } else {
        live_count(s.drop_last()) + if s.last().live {
            1int
        } else {
            0int
        }
    }
}

/// Appending a block adds its liveness to the count.
pub proof fn lemma_live_count_push(s: Seq<CombinedBlock>, b: CombinedBlock)
    ensures
        live_count(s.push(b)) == live_count(s) + if b.live {
            1int
        } else {
            0int
        },
{
    assert(s.push(b).drop_last() =~= s);
}

/// Replacing one block adjusts the count by the change in its liveness.
pub proof fn lemma_live_count_update(s: Seq<CombinedBlock>, k: int, b: CombinedBlock)
    requires
        0 <= k < s.len(),
    ensures
        live_count(s.update(k, b)) == live_count(s) + (if b.live {
            1int
        } else {
            0int
        }) - (if s[k].live {
            1int
        } else {
            0int
        }),
    decreases s.len(),
{
    let t = s.update(k, b);
    if k == s.len() - 1 {
        assert(t.drop_last() =~= s.drop_last());
        assert(t.last() == b);
    } else {
        assert(t.drop_last() =~= s.drop_last().update(k, b));
        lemma_live_count_update(s.drop_last(), k, b);
        assert(t.last() == s.last());
    }
}

/// Distinct blocks of a well-formed arena have distinct payload addresses,
/// even when one of them has a zero-sized payload sitting at the very end
/// of its allocation.
pub proof fn lemma_payload_addrs_distinct(a: Arena, i: int, j: int)
    requires
        arena_wf(a),
        0 <= i < a.blocks@.len(),
        0 <= j < a.blocks@.len(),
        i != j,
    ensures
        a.blocks@[i].payload_addr != a.blocks@[j].payload_addr,
{
    if i < j {
        assert(blk_geometry_wf(a.blocks@[i]));
        assert(blk_geometry_wf(a.blocks@[j]));
        assert(a.blocks@[i].base + a.blocks@[i].layout.size <= a.blocks@[j].base);
    } else {
        assert(blk_geometry_wf(a.blocks@[i]));
        assert(blk_geometry_wf(a.blocks@[j]));
        assert(a.blocks@[j].base + a.blocks@[j].layout.size <= a.blocks@[i].base);
    }
}

/// In a well-formed arena a handle word picks out exactly one live block:
/// whichever live block carries that payload address is the stored one.
pub proof fn lemma_stored_is(a: Arena, w: usize, i: int)
    requires
        arena_wf(a),
        live_at(a, i, w),
    ensures
        valid_handle(a, w),
        stored_index(a, w) == i,
        stored_block(a, w) == a.blocks@[i],
{
    assert(valid_handle(a, w));
    let j = stored_index(a, w);
    assert(live_at(a, j, w));
    if j != i {
        lemma_payload_addrs_distinct(a, i, j);
        assert(false);
    }
}

/// Copy a byte vector.  Models reading a payload region out of a block.
fn copy_bytes(src: &Vec<u8>) -> (r: Vec<u8>)
    ensures
        r@ == src@,
{
    let n = src.len();
    let mut out: Vec<u8> = Vec::new();
    let mut i: usize = 0;
    while i < n
        invariant
            n == src@.len(),
            0 <= i <= n,
            out@ == src@.subrange(0, i as int),
        decreases n - i,
    {
        out.push(src[i]);
        proof {
            assert(out@ =~= src@.subrange(0, i as int + 1));
        }
        i = i + 1;
    }
    proof {
        assert(out@ =~= src@);
    }
    out
}

impl Arena {
    /// An empty address space: nothing allocated yet.
    pub fn new() -> (a: Arena)
        ensures
            arena_wf(a),
            a.blocks@.len() == 0,
            a.next == 0,
    {
        Arena { blocks: Vec::new(), next: 0 }
    }

    /// Locate the live block a handle word refers to.
    fn find_block(&self, w: usize) -> (idx: usize)
        requires
            arena_wf(*self),
            valid_handle(*self, w),
        ensures
            live_at(*self, idx as int, w),
            stored_index(*self, w) == idx as int,
    {
        let n = self.blocks.len();
        let mut i: usize = 0;
        while i < n
            invariant
                arena_wf(*self),
                valid_handle(*self, w),
                n == self.blocks@.len(),
                0 <= i <= n,
                forall|k: int| 0 <= k < i ==> !live_at(*self, k, w),
            decreases n - i,
        {
            let b = &self.blocks[i];
            if b.live && b.payload_addr == w {
                proof {
                    lemma_stored_is(*self, w, i as int);
                }
                return i;
            }
            i = i + 1;
        }
        proof {
            let k = choose|k: int| live_at(*self, k, w);
            assert(live_at(*self, k, w));
            assert(false);
        }
        0
    }

    /// Build one combined block for a payload value and return its
    /// one-word handle.  Asks the planner for the geometry, reserves the
    /// block at the bump cursor, writes the dispatch identity into the
    /// slot one word below the payload offset, moves the payload bytes in
    /// (a zero-sized payload contributes none), and hands back the payload
    /// address as the handle.  The new handle aliases no earlier block.
    pub fn construct(
        &mut self,
        info: &TypeInfo,
        payload: Vec<u8>,
        register_finalizer: bool,
    ) -> (h: NarrowHandle)
        requires
            arena_wf(*old(self)),
            type_info_wf(*info),
            payload@.len() == info.size,
            old(self).next + 2 * (info.align + WORD_BYTES) + info.size + WORD_BYTES
                <= usize::MAX,
        ensures
            arena_wf(*final(self)),
            final(self).blocks@.len() == old(self).blocks@.len() + 1,
            forall|i: int|
                0 <= i < old(self).blocks@.len() ==> final(self).blocks@[i]
                    == old(self).blocks@[i],
            final(self).blocks@.last().live,
            final(self).blocks@.last().dispatch == info.dispatch,
            final(self).blocks@.last().payload@ == payload@,
            final(self).blocks@.last().payload_align == info.align,
            final(self).blocks@.last().finalizer_registered == register_finalizer,
            final(self).blocks@.last().layout == layout_spec(info.size, info.align),
            final(self).blocks@.last().payload_addr == h.word,
            forall|i: int|
                0 <= i < old(self).blocks@.len() ==> old(self).blocks@[i].payload_addr
                    != h.word,
            valid_handle(*final(self), h.word),
            stored_index(*final(self), h.word) == old(self).blocks@.len(),
            stored_block(*final(self), h.word) == final(self).blocks@.last(),
            old(self).next <= final(self).next,
            live_count(final(self).blocks@) == live_count(old(self).blocks@) + 1,
            h.word as int % info.align as int == 0,
            h.word as int % WORD_BYTES as int == 0,
    {
        let l = layout::compute(info.size, info.align);
        let base = layout::round_up(self.next, l.align);
        let payload_addr = base + l.payload_offset;
        let blk = CombinedBlock {
            dispatch: info.dispatch,
            payload,
            payload_align: info.align,
            base,
            payload_addr,
            layout: l,
            live: true,
            finalizer_registered: register_finalizer,
        };
        proof {
            assert(blk_geometry_wf(blk));
            assert(blk_wf(blk));
            // The payload lands on an address aligned for it and for the
            // word-sized slot below it: the block base is aligned to the
            // combined alignment, of which both are divisors, and the
            // offset is a multiple of both.
            let pa = info.align as int;
            let w = WORD_BYTES as int;
            let la = l.align as int;
            layout::lemma_divides_transitive(pa, la, base as int);
            layout::lemma_divides_transitive(w, la, base as int);
            layout::lemma_aligned_sum(base as int, l.payload_offset as int, pa);
            layout::lemma_aligned_sum(base as int, l.payload_offset as int, w);
        }
        self.blocks.push(blk);
        self.next = base + l.size;
        proof {
            let a = *self;
            let m = a.blocks@.len() - 1;
            assert forall|i: int| 0 <= i < a.blocks@.len() implies blk_geometry_wf(
                #[trigger] a.blocks@[i],
            ) by {
                if i < m {
                    assert(blk_geometry_wf(old(self).blocks@[i]));
                }
            }
            assert forall|i: int| 0 <= i < a.blocks@.len() && a.blocks@[i].live implies blk_wf(
                #[trigger] a.blocks@[i],
            ) by {
                if i < m {
                    assert(blk_wf(old(self).blocks@[i]));
                }
            }
            assert forall|i: int| 0 <= i < a.blocks@.len() implies (#[trigger] a.blocks@[i]).base
                + a.blocks@[i].layout.size <= a.next by {
                if i < m {
                    assert(old(self).blocks@[i].base + old(self).blocks@[i].layout.size
                        <= old(self).next);
                }
            }
            assert forall|i: int, j: int|
                #![trigger a.blocks@[i], a.blocks@[j]]
                0 <= i < j < a.blocks@.len() implies a.blocks@[i].base
                + a.blocks@[i].layout.size <= a.blocks@[j].base by {
                if j < m + 1 && j != m {
                    assert(old(self).blocks@[i].base + old(self).blocks@[i].layout.size
                        <= old(self).blocks@[j].base);
                } else {
                    assert(old(self).blocks@[i].base + old(self).blocks@[i].layout.size
                        <= old(self).next);
                }
            }
            assert(arena_wf(a));
            assert forall|i: int| 0 <= i < old(self).blocks@.len() implies old(
                self,
            ).blocks@[i].payload_addr != payload_addr by {
                assert(blk_geometry_wf(old(self).blocks@[i]));
                assert(old(self).blocks@[i].base + old(self).blocks@[i].layout.size
                    <= old(self).next);
            }
            lemma_stored_is(a, payload_addr, m);
            lemma_live_count_push(old(self).blocks@, a.blocks@.last());
        }
        NarrowHandle { word: payload_addr }
    }

    /// Reconstruct the full two-word polymorphic reference from a handle:
    /// the handle word is the data pointer, and the dispatch identity is
    /// read back from the slot one word below it.  Never fails, and reads
    /// nothing but that slot.
    pub fn deref(&self, h: NarrowHandle) -> (r: PolymorphicRef)
        requires
            arena_wf(*self),
            valid_handle(*self, h.word),
        ensures
            r == recovered(*self, h.word),
    {
        let idx = self.find_block(h.word);
        let b = &self.blocks[idx];
        proof {
            // Invariant: the slot is recovered at a fixed offset, payload
            // address minus one word, inside the allocation.
            assert(blk_geometry_wf(*b));
            assert(slot_addr(*b) == h.word - WORD_BYTES);
            assert(b.base <= slot_addr(*b));
        }
        PolymorphicRef { data_ptr: h.word, dispatch_ptr: b.dispatch }
    }

    /// Read a copy of the stored object's bytes.
    pub fn read_payload(&self, h: NarrowHandle) -> (r: Vec<u8>)
        requires
            arena_wf(*self),
            valid_handle(*self, h.word),
        ensures
            r@ == stored_block(*self, h.word).payload@,
    {
        let idx = self.find_block(h.word);
        copy_bytes(&self.blocks[idx].payload)
    }

    /// Try casting the handle to the concrete type `target` describes:
    /// compare the stored dispatch identity against the target's identity
    /// and, exactly on a match, hand back the payload bytes.  A mismatch
    /// is not an error, just an absent result.
    pub fn downcast(&self, h: NarrowHandle, target: &TypeInfo) -> (r: Option<Vec<u8>>)
        requires
            arena_wf(*self),
            valid_handle(*self, h.word),
        ensures
            r.is_some() == (stored_block(*self, h.word).dispatch.id == target.dispatch.id),
            r.is_some() ==> r.unwrap()@ == stored_block(*self, h.word).payload@,
    {
        let idx = self.find_block(h.word);
        let b = &self.blocks[idx];
        if identity_matches(b.dispatch, target.dispatch) {
            Some(copy_bytes(&b.payload))
        } else {
            None
        }
    }

    /// Overwrite the stored object's bytes in place, preserving its type:
    /// the mutable counterpart of dereferencing.  The dispatch slot, the
    /// block's geometry and every other block are left untouched.
    pub fn write_payload(&mut self, h: NarrowHandle, bytes: Vec<u8>)
        requires
            arena_wf(*old(self)),
            valid_handle(*old(self), h.word),
            bytes@.len() == stored_block(*old(self), h.word).payload@.len(),
        ensures
            arena_wf(*final(self)),
            final(self).next == old(self).next,
            final(self).blocks@.len() == old(self).blocks@.len(),
            forall|i: int|
                0 <= i < old(self).blocks@.len() && i != stored_index(*old(self), h.word)
                    ==> final(self).blocks@[i] == old(self).blocks@[i],
            live_at(*final(self), stored_index(*old(self), h.word), h.word),
            stored_index(*final(self), h.word) == stored_index(*old(self), h.word),
            stored_block(*final(self), h.word).payload@ == bytes@,
            stored_block(*final(self), h.word).dispatch
                == stored_block(*old(self), h.word).dispatch,
            stored_block(*final(self), h.word).layout
                == stored_block(*old(self), h.word).layout,
            stored_block(*final(self), h.word).payload_align
                == stored_block(*old(self), h.word).payload_align,
            stored_block(*final(self), h.word).base == stored_block(*old(self), h.word).base,
            stored_block(*final(self), h.word).finalizer_registered
                == stored_block(*old(self), h.word).finalizer_registered,
            recovered(*final(self), h.word) == recovered(*old(self), h.word),
            live_count(final(self).blocks@) == live_count(old(self).blocks@),
    {
        let idx = self.find_block(h.word);
        let b = &self.blocks[idx];
        let nb = CombinedBlock {
            dispatch: b.dispatch,
            payload: bytes,
            payload_align: b.payload_align,
            base: b.base,
            payload_addr: b.payload_addr,
            layout: b.layout,
            live: b.live,
            finalizer_registered: b.finalizer_registered,
        };
        self.blocks.set(idx, nb);
        proof {
            let a = *self;
            let k = idx as int;
            assert forall|i: int| 0 <= i < a.blocks@.len() implies blk_geometry_wf(
                #[trigger] a.blocks@[i],
            ) by {
                assert(blk_geometry_wf(old(self).blocks@[i]));
            }
            assert forall|i: int| 0 <= i < a.blocks@.len() && a.blocks@[i].live implies blk_wf(
                #[trigger] a.blocks@[i],
            ) by {
                assert(blk_wf(old(self).blocks@[i]));
            }
            assert forall|i: int| 0 <= i < a.blocks@.len() implies (#[trigger] a.blocks@[i]).base
                + a.blocks@[i].layout.size <= a.next by {
                assert(old(self).blocks@[i].base + old(self).blocks@[i].layout.size
                    <= old(self).next);
            }
            assert forall|i: int, j: int|
                #![trigger a.blocks@[i], a.blocks@[j]]
                0 <= i < j < a.blocks@.len() implies a.blocks@[i].base
                + a.blocks@[i].layout.size <= a.blocks@[j].base by {
                assert(old(self).blocks@[i].base + old(self).blocks@[i].layout.size
                    <= old(self).blocks@[j].base);
            }
            lemma_stored_is(a, h.word, k);
            lemma_live_count_update(old(self).blocks@, k, a.blocks@[k]);
        }
    }

    /// Retire the block a handle refers to: recompute the stored object's
    /// layout from the block itself — never from the handle's static type,
    /// and captured before any destruction logic could disturb it — and
    /// release the allocation exactly once.  The handle is dead afterwards;
    /// every other handle is untouched.  Returns the layout the block was
    /// released with.
    pub fn retire(&mut self, h: NarrowHandle) -> (l: Layout)
        requires
            arena_wf(*old(self)),
            valid_handle(*old(self), h.word),
        ensures
            arena_wf(*final(self)),
            final(self).next == old(self).next,
            final(self).blocks@.len() == old(self).blocks@.len(),
            forall|i: int|
                0 <= i < old(self).blocks@.len() && i != stored_index(*old(self), h.word)
                    ==> final(self).blocks@[i] == old(self).blocks@[i],
            !final(self).blocks@[stored_index(*old(self), h.word)].live,
            final(self).blocks@[stored_index(*old(self), h.word)].payload_addr == h.word,
            l == stored_block(*old(self), h.word).layout,
            l == layout_spec(
                stored_block(*old(self), h.word).payload@.len() as usize,
                stored_block(*old(self), h.word).payload_align,
            ),
            !valid_handle(*final(self), h.word),
            forall|w2: usize|
                w2 != h.word ==> #[trigger] valid_handle(*final(self), w2) == valid_handle(
                    *old(self),
                    w2,
                ),
            live_count(final(self).blocks@) == live_count(old(self).blocks@) - 1,
    {
        let idx = self.find_block(h.word);
        let b = &self.blocks[idx];
        // Capture the stored object's geometry before destruction logic
        // runs; freed memory is never introspected.
        let size = b.payload.len();
        let align = b.payload_align;
        let dispatch = b.dispatch;
        let base = b.base;
        let payload_addr = b.payload_addr;
        let finalizer_registered = b.finalizer_registered;
        proof {
            assert(blk_wf(old(self).blocks@[idx as int]));
            assert(size + align + WORD_BYTES <= usize::MAX);
        }
        // Reconstruct the layout from the actual stored object.
        let l = layout::compute(size, align);
        proof {
            assert(l == old(self).blocks@[idx as int].layout);
        }
        let nb = CombinedBlock {
            dispatch,
            payload: Vec::new(),
            payload_align: align,
            base,
            payload_addr,
            layout: l,
            live: false,
            finalizer_registered,
        };
        self.blocks.set(idx, nb);
        proof {
            let a = *self;
            let k = idx as int;
            assert forall|i: int| 0 <= i < a.blocks@.len() implies blk_geometry_wf(
                #[trigger] a.blocks@[i],
            ) by {
                assert(blk_geometry_wf(old(self).blocks@[i]));
            }
            assert forall|i: int| 0 <= i < a.blocks@.len() && a.blocks@[i].live implies blk_wf(
                #[trigger] a.blocks@[i],
            ) by {
                assert(blk_wf(old(self).blocks@[i]));
            }
            assert forall|i: int| 0 <= i < a.blocks@.len() implies (#[trigger] a.blocks@[i]).base
                + a.blocks@[i].layout.size <= a.next by {
                assert(old(self).blocks@[i].base + old(self).blocks@[i].layout.size
                    <= old(self).next);
            }
            assert forall|i: int, j: int|
                #![trigger a.blocks@[i], a.blocks@[j]]
                0 <= i < j < a.blocks@.len() implies a.blocks@[i].base
                + a.blocks@[i].layout.size <= a.blocks@[j].base by {
                assert(old(self).blocks@[i].base + old(self).blocks@[i].layout.size
                    <= old(self).blocks@[j].base);
            }
            if valid_handle(a, h.word) {
                let j = choose|j: int| live_at(a, j, h.word);
                assert(live_at(a, j, h.word));
                assert(j != k);
                assert(live_at(*old(self), j, h.word));
                lemma_payload_addrs_distinct(*old(self), j, k);
                assert(false);
            }
            assert forall|w2: usize| w2 != h.word implies #[trigger] valid_handle(a, w2)
                == valid_handle(*old(self), w2) by {
                if valid_handle(a, w2) {
                    let j = choose|j: int| live_at(a, j, w2);
                    assert(live_at(a, j, w2));
                    assert(j != k);
                    assert(live_at(*old(self), j, w2));
                }
                if valid_handle(*old(self), w2) {
                    let j = choose|j: int| live_at(*old(self), j, w2);
                    assert(live_at(*old(self), j, w2));
                    assert(j != k) by {
                        if j == k {
                            lemma_stored_is(*old(self), h.word, k);
                        }
                    }
                    assert(live_at(a, j, w2));
                }
            }
            lemma_live_count_update(old(self).blocks@, k, a.blocks@[k]);
        }
        l
    }
}

} // verus!
