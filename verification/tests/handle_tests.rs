use natrob::arena::NarrowHandle;
use natrob::dispatch::{identity_matches, DispatchRegistry};
use natrob::manual::ManualHeap;
use natrob::samples::{S1, S2, S3, T};

fn encode_usize(x: usize) -> Vec<u8> {
    x.to_le_bytes().to_vec()
}

fn decode_usize(b: &[u8]) -> usize {
    let mut a = [0u8; 8];
    a.copy_from_slice(b);
    usize::from_le_bytes(a)
}

#[test]
fn handle_is_one_word() {
    // A narrow handle is one machine word, whatever payload it refers to:
    // the same one-word type serves a zero-sized, a word-sized and a
    // multi-field payload.
    assert_eq!(
        std::mem::size_of::<NarrowHandle>(),
        std::mem::size_of::<usize>()
    );
    let mut reg = DispatchRegistry::new();
    let zero = reg.register(0, 1, true);
    let word = reg.register(8, 8, true);
    let multi = reg.register(24, 8, true);
    let mut heap = ManualHeap::new();
    let h0 = heap.construct(&zero, Vec::new());
    let h1 = heap.construct(&word, vec![7u8; 8]);
    let h2 = heap.construct(&multi, vec![9u8; 24]);
    assert_eq!(std::mem::size_of_val(&h0), std::mem::size_of::<usize>());
    assert_eq!(std::mem::size_of_val(&h1), std::mem::size_of::<usize>());
    assert_eq!(std::mem::size_of_val(&h2), std::mem::size_of::<usize>());
}

#[test]
fn dispatch_matches_direct_calls() {
    // Dispatch through a handle reaches the same implementation as a
    // direct call on the value, for zero-sized and stateful payloads.
    let s1 = S1;
    let s2 = S2;
    let s3 = S3 { x: 3 };
    let mut reg = DispatchRegistry::new();
    let i1 = reg.register(0, 1, true);
    let i2 = reg.register(0, 1, true);
    let i3 = reg.register(8, 8, true);
    let mut heap = ManualHeap::new();
    let h1 = heap.construct(&i1, Vec::new());
    let h2 = heap.construct(&i2, Vec::new());
    let h3 = heap.construct(&i3, encode_usize(s3.x));
    for (h, want) in [(h1, s1.f()), (h2, s2.f()), (h3, s3.f())] {
        let p = heap.deref(h);
        let got = if p.dispatch_ptr.id == i1.dispatch.id {
            S1.f()
        } else if p.dispatch_ptr.id == i2.dispatch.id {
            S2.f()
        } else {
            assert_eq!(p.dispatch_ptr.id, i3.dispatch.id);
            let bytes = heap.read_payload(h);
            S3 { x: decode_usize(&bytes) }.f()
        };
        assert_eq!(got, want);
    }
}

#[test]
fn deref_is_idempotent() {
    // Repeated dereferences of one handle agree in both words: nothing
    // mutates the dispatch slot behind the scenes.
    let mut reg = DispatchRegistry::new();
    let info = reg.register(8, 8, true);
    let mut heap = ManualHeap::new();
    let h = heap.construct(&info, encode_usize(5));
    let p1 = heap.deref(h);
    let p2 = heap.deref(h);
    let p3 = heap.deref(h);
    assert_eq!(p1, p2);
    assert_eq!(p2, p3);
    assert_eq!(p1.data_ptr, h.word);
}

#[test]
fn downcast_present_and_absent() {
    // Downcasting to the constructed type hands back the original fields;
    // downcasting to a different type of the same interface is absent.
    let mut reg = DispatchRegistry::new();
    let i1 = reg.register(0, 1, true);
    let i2 = reg.register(8, 8, true);
    let mut heap = ManualHeap::new();
    let h1 = heap.construct(&i1, Vec::new());
    let h2 = heap.construct(&i2, encode_usize(2));
    assert!(heap.downcast(h1, &i1).is_some());
    assert!(heap.downcast(h1, &i2).is_none());
    let back = heap.downcast(h2, &i2).unwrap();
    assert_eq!(decode_usize(&back), 2);
    assert!(heap.downcast(h2, &i1).is_none());
}

#[test]
fn downcast_zero_sized_round_trip() {
    let mut reg = DispatchRegistry::new();
    let info = reg.register(0, 1, true);
    let mut heap = ManualHeap::new();
    let h = heap.construct(&info, Vec::new());
    let back = heap.downcast(h, &info).unwrap();
    assert!(back.is_empty());
}

#[test]
fn identity_comparison_is_equality() {
    let mut reg = DispatchRegistry::new();
    let a = reg.register(0, 1, true);
    let b = reg.register(0, 1, true);
    assert!(identity_matches(a.dispatch, a.dispatch));
    assert!(!identity_matches(a.dispatch, b.dispatch));
    assert_ne!(a.dispatch.id, b.dispatch.id);
}

#[test]
fn overaligned_payload_round_trip() {
    // The large-alignment boundary: a payload aligned far beyond the
    // word. Its handle lands on a correctly aligned address, and both
    // dereference and downcast still recover the stored value.
    let mut reg = DispatchRegistry::new();
    let i1 = reg.register(0, 1, true);
    let big = reg.register(8, 1024, true);
    let mut heap = ManualHeap::new();
    let h1 = heap.construct(&i1, Vec::new());
    let h2 = heap.construct(&big, encode_usize(2));
    assert_eq!(h2.word % 1024, 0);
    let p = heap.deref(h2);
    assert_eq!(p.dispatch_ptr.id, big.dispatch.id);
    let back = heap.downcast(h2, &big).unwrap();
    assert_eq!(decode_usize(&back), 2);
    assert!(heap.downcast(h1, &big).is_none());
}

#[test]
fn mutation_through_handle_is_seen() {
    // The mutable dispatch scenario: writing through a handle changes
    // what later reads through the same handle see, and only that.
    let mut reg = DispatchRegistry::new();
    let i2 = reg.register(8, 8, true);
    let i3 = reg.register(8, 8, true);
    let mut heap = ManualHeap::new();
    let h2 = heap.construct(&i2, encode_usize(2));
    let h3 = heap.construct(&i3, encode_usize(30));
    let before = heap.deref(h2);
    heap.deref_mut_write(h2, encode_usize(3));
    assert_eq!(decode_usize(&heap.read_payload(h2)), 3);
    heap.deref_mut_write(h2, encode_usize(4));
    assert_eq!(decode_usize(&heap.read_payload(h2)), 4);
    // The dispatch slot and the neighbouring handle are untouched.
    let after = heap.deref(h2);
    assert_eq!(before, after);
    assert_eq!(decode_usize(&heap.read_payload(h3)), 30);
}

#[test]
fn destruction_runs_once_per_handle() {
    // Constructing and destroying N handles runs destruction logic
    // exactly N times, once per handle.
    let n: usize = 3;
    let mut reg = DispatchRegistry::new();
    let info = reg.register(8, 8, false);
    let mut heap = ManualHeap::new();
    let mut handles = Vec::new();
    for k in 0..n {
        handles.push(heap.construct(&info, encode_usize(k)));
    }
    assert_eq!(heap.drop_count, 0);
    for (k, h) in handles.iter().enumerate() {
        heap.destroy(*h);
        assert_eq!(heap.drop_count, k + 1);
    }
    assert_eq!(heap.drop_count, n);
}

#[test]
fn registry_issues_sequential_identities() {
    let mut reg = DispatchRegistry::new();
    let a = reg.register(0, 1, true);
    let b = reg.register(8, 8, false);
    let c = reg.register(24, 8, false);
    assert_eq!(a.dispatch.id, 0);
    assert_eq!(b.dispatch.id, 1);
    assert_eq!(c.dispatch.id, 2);
}

#[test]
fn addresses_are_not_reused_after_destroy() {
    // The bump allocator retires a block without recycling its address
    // range, so a destroyed handle's word never comes back.
    let mut reg = DispatchRegistry::new();
    let info = reg.register(8, 8, false);
    let mut heap = ManualHeap::new();
    let h1 = heap.construct(&info, encode_usize(1));
    heap.destroy(h1);
    let h2 = heap.construct(&info, encode_usize(2));
    assert_ne!(h1.word, h2.word);
    assert_eq!(decode_usize(&heap.read_payload(h2)), 2);
}

#[test]
fn destroyed_block_is_dead_others_live() {
    let mut reg = DispatchRegistry::new();
    let info = reg.register(8, 8, false);
    let mut heap = ManualHeap::new();
    let h1 = heap.construct(&info, encode_usize(1));
    let h2 = heap.construct(&info, encode_usize(2));
    heap.destroy(h1);
    // The destroyed handle's block is retired; the other is untouched.
    let live: Vec<bool> = heap.arena.blocks.iter().map(|b| b.live).collect();
    assert_eq!(live, vec![false, true]);
    assert_eq!(decode_usize(&heap.read_payload(h2)), 2);
}
