use natrob::dispatch::DispatchRegistry;
use natrob::gc::GcHeap;
use natrob::layout::{compute, is_power_of_two, round_up, WORD_BYTES};

fn encode_usize(x: usize) -> Vec<u8> {
    x.to_le_bytes().to_vec()
}

fn decode_usize(b: &[u8]) -> usize {
    let mut a = [0u8; 8];
    a.copy_from_slice(b);
    usize::from_le_bytes(a)
}

#[test]
fn word_size_is_one_machine_word() {
    assert_eq!(WORD_BYTES, std::mem::size_of::<usize>());
}

#[test]
fn planner_exact_values() {
    // Payload no more aligned than the word: the payload starts right
    // after the dispatch slot, with no padding.
    let l = compute(0, 1);
    assert_eq!((l.size, l.align, l.payload_offset), (8, 8, 8));
    let l = compute(16, 8);
    assert_eq!((l.size, l.align, l.payload_offset), (24, 8, 8));
    let l = compute(3, 2);
    assert_eq!((l.size, l.align, l.payload_offset), (11, 8, 8));
    // Overaligned payload: the padding inserted before it is itself a
    // whole number of words, so the slot stays word-aligned.
    let l = compute(8, 1024);
    assert_eq!((l.size, l.align, l.payload_offset), (1032, 1024, 1024));
    assert_eq!(l.payload_offset % WORD_BYTES, 0);
}

#[test]
fn rounding_exact_values() {
    assert_eq!(round_up(0, 8), 0);
    assert_eq!(round_up(1, 8), 8);
    assert_eq!(round_up(8, 8), 8);
    assert_eq!(round_up(9, 8), 16);
    assert_eq!(round_up(8, 1024), 1024);
}

#[test]
fn power_of_two_checker() {
    assert!(is_power_of_two(1));
    assert!(is_power_of_two(2));
    assert!(is_power_of_two(8));
    assert!(is_power_of_two(1024));
    assert!(!is_power_of_two(0));
    assert!(!is_power_of_two(3));
    assert!(!is_power_of_two(12));
    assert!(!is_power_of_two(usize::MAX));
}

#[test]
fn collected_mutation_is_seen() {
    let mut reg = DispatchRegistry::new();
    let info = reg.register(8, 8, false);
    let mut heap = GcHeap::new();
    let h = heap.construct(&info, encode_usize(10));
    let before = heap.deref(h);
    heap.deref_mut_write(h, encode_usize(11));
    assert_eq!(decode_usize(&heap.read_payload(h)), 11);
    assert_eq!(heap.deref(h), before);
}

#[test]
fn collected_construct_and_downcast() {
    let mut reg = DispatchRegistry::new();
    let i1 = reg.register(0, 1, true);
    let i2 = reg.register(8, 8, false);
    let mut heap = GcHeap::new();
    let h1 = heap.construct(&i1, Vec::new());
    let h2 = heap.construct(&i2, encode_usize(42));
    assert!(heap.downcast(h1, &i1).is_some());
    assert!(heap.downcast(h1, &i2).is_none());
    assert_eq!(decode_usize(&heap.downcast(h2, &i2).unwrap()), 42);
    let p = heap.deref(h2);
    assert_eq!(p.data_ptr, h2.word);
    assert_eq!(p.dispatch_ptr.id, i2.dispatch.id);
}

#[test]
fn finalizer_skipped_exactly_for_trivial_drops() {
    let mut reg = DispatchRegistry::new();
    let trivial = reg.register(8, 8, true);
    let nontrivial = reg.register(8, 8, false);
    let mut heap = GcHeap::new();
    let _h1 = heap.construct(&trivial, encode_usize(1));
    let _h2 = heap.construct(&nontrivial, encode_usize(2));
    let flags: Vec<bool> = heap
        .arena
        .blocks
        .iter()
        .map(|b| b.finalizer_registered)
        .collect();
    assert_eq!(flags, vec![false, true]);
}

#[test]
fn embedded_payload_has_no_gap() {
    // The union embedding: a payload no more aligned than the dispatch
    // slot sits immediately after it, so the collector can scan it in
    // place.
    let mut reg = DispatchRegistry::new();
    let info = reg.register(8, 8, true);
    let mut heap = GcHeap::new();
    let h = heap.construct_embedded(&info, encode_usize(9));
    let blk = &heap.arena.blocks[0];
    assert_eq!(blk.layout.payload_offset, WORD_BYTES);
    assert_eq!(blk.layout.size, WORD_BYTES + 8);
    assert_eq!(h.word, blk.base + WORD_BYTES);
    assert_eq!(decode_usize(&heap.read_payload(h)), 9);
}

#[test]
fn recover_returns_the_same_handle() {
    // A concretely-typed reference that came out of this construction
    // path converts back into the original interface handle.
    let mut reg = DispatchRegistry::new();
    let info = reg.register(8, 8, false);
    let mut heap = GcHeap::new();
    let h = heap.construct(&info, encode_usize(7));
    let p = heap.deref(h);
    let back = heap.recover(p.data_ptr);
    assert_eq!(back, h);
    assert_eq!(decode_usize(&heap.read_payload(back)), 7);
}
