use gm8emulator::slab::{Chunk, ChunkList, CHUNKS_PREALLOCATED, CHUNK_SIZE};

#[test]
fn chunk_new_is_usable() {
    let _chunk: Chunk<u8> = Chunk::new();
}

#[test]
fn removed_handles_are_reused_lowest_first() {
    let mut list: ChunkList<u32> = ChunkList::new();
    for i in 0..256 {
        assert_eq!(list.insert(i as u32), i);
    }
    list.remove(0);
    list.remove(128);
    list.remove(255);
    assert_eq!(list.insert(1000), 0);
    assert_eq!(list.insert(1001), 128);
    assert_eq!(list.insert(1002), 255);
    assert_eq!(list.get(0), Some(&1000));
    assert_eq!(list.get(128), Some(&1001));
    assert_eq!(list.get(255), Some(&1002));
}

#[test]
fn live_handles_keep_their_values() {
    let mut list: ChunkList<String> = ChunkList::new();
    let a = list.insert("a".to_string());
    let b = list.insert("b".to_string());
    let c = list.insert("c".to_string());
    list.remove(b);
    let d = list.insert("d".to_string());
    assert_eq!(d, b);
    let e = list.insert("e".to_string());
    assert_ne!(e, a);
    assert_ne!(e, c);
    assert_ne!(e, d);
    assert_eq!(list.get(a).map(|s| s.as_str()), Some("a"));
    assert_eq!(list.get(c).map(|s| s.as_str()), Some("c"));
    assert_eq!(list.get(d).map(|s| s.as_str()), Some("d"));
    assert_eq!(list.get(e).map(|s| s.as_str()), Some("e"));
}

#[test]
fn fresh_slab_has_preallocated_chunks() {
    let list: ChunkList<u8> = ChunkList::new();
    assert_eq!(list.capacity(), CHUNKS_PREALLOCATED * CHUNK_SIZE);
    assert_eq!(list.get(0), None);
    assert_eq!(list.get(CHUNKS_PREALLOCATED * CHUNK_SIZE), None);
    assert_eq!(list.get(usize::MAX), None);
}

#[test]
fn full_slab_grows_by_one_chunk() {
    let mut list: ChunkList<usize> = ChunkList::new();
    let total = CHUNKS_PREALLOCATED * CHUNK_SIZE;
    for i in 0..total {
        assert_eq!(list.insert(i), i);
    }
    assert_eq!(list.capacity(), total);
    assert_eq!(list.insert(total), total);
    assert_eq!(list.capacity(), total + CHUNK_SIZE);
    assert_eq!(list.get(total), Some(&total));
    assert_eq!(list.get(total + 1), None);
}

#[test]
fn removing_a_free_or_missing_slot_changes_nothing() {
    let mut list: ChunkList<u32> = ChunkList::new();
    let a = list.insert(7);
    list.remove(5);
    list.remove(5);
    list.remove(1_000_000);
    assert_eq!(list.get(a), Some(&7));
    assert_eq!(list.insert(8), 1);
    assert_eq!(list.insert(9), 2);
}

#[test]
fn take_hands_back_the_value() {
    let mut list: ChunkList<u32> = ChunkList::new();
    let a = list.insert(7);
    assert_eq!(list.take(a), Some(7));
    assert_eq!(list.take(a), None);
    assert_eq!(list.get(a), None);
}

#[test]
fn set_overwrites_a_slot() {
    let mut list: ChunkList<u32> = ChunkList::new();
    let a = list.insert(7);
    assert_eq!(list.set(a, 9), Some(7));
    assert_eq!(list.set(3, 4), None);
    assert_eq!(list.get(a), Some(&9));
    assert_eq!(list.get(3), Some(&4));
    assert_eq!(list.insert(1), 1);
}

#[test]
fn remove_with_counts_and_removes_matches() {
    let mut list: ChunkList<u32> = ChunkList::new();
    for i in 0..10 {
        list.insert(i);
    }
    let removed = list.remove_with(|v: &u32| *v % 2 == 0);
    assert_eq!(removed, 5);
    for i in 0..10usize {
        if i % 2 == 0 {
            assert_eq!(list.get(i), None);
        } else {
            assert_eq!(list.get(i), Some(&(i as u32)));
        }
    }
    assert_eq!(list.remove_with(|v: &u32| *v > 100), 0);
}

#[test]
fn remove_as_vec_returns_matches_in_slot_order() {
    let mut list: ChunkList<u32> = ChunkList::new();
    for i in 0..6 {
        list.insert(10 - i);
    }
    let removed = list.remove_as_vec(|v: &u32| *v >= 8);
    assert_eq!(removed, vec![10, 9, 8]);
    assert_eq!(list.get(0), None);
    assert_eq!(list.get(3), Some(&7));
}

#[test]
fn clear_empties_every_slot() {
    let mut list: ChunkList<u32> = ChunkList::new();
    for i in 0..300 {
        list.insert(i);
    }
    list.clear();
    for i in 0..300usize {
        assert_eq!(list.get(i), None);
    }
    assert_eq!(list.insert(5), 0);
}

#[test]
fn serialize_is_dense_and_deserialize_refills_from_zero() {
    let mut list: ChunkList<u32> = ChunkList::new();
    for i in 0..5 {
        list.insert(i * 10);
    }
    list.remove(1);
    list.remove(3);
    let dense = list.serialize();
    assert_eq!(dense, vec![0, 20, 40]);
    let again = ChunkList::deserialize(dense);
    assert_eq!(again.get(0), Some(&0));
    assert_eq!(again.get(1), Some(&20));
    assert_eq!(again.get(2), Some(&40));
    assert_eq!(again.get(3), None);
    assert_eq!(again.capacity(), CHUNKS_PREALLOCATED * CHUNK_SIZE);
}

#[test]
fn deserialize_grows_for_many_values() {
    let values: Vec<usize> = (0..2049).collect();
    let list = ChunkList::deserialize(values);
    assert_eq!(list.capacity(), 2304);
    assert_eq!(list.get(2048), Some(&2048));
    assert_eq!(list.get(2049), None);
}

#[test]
fn a_hole_in_a_later_chunk_is_found_after_the_full_ones() {
    let mut list: ChunkList<usize> = ChunkList::new();
    let total = CHUNKS_PREALLOCATED * CHUNK_SIZE;
    for i in 0..total + 3 {
        assert_eq!(list.insert(i), i);
    }
    assert_eq!(list.capacity(), total + CHUNK_SIZE);
    list.remove(3 * CHUNK_SIZE + 17);
    list.remove(CHUNK_SIZE - 1);
    list.remove(CHUNK_SIZE);
    assert_eq!(list.take(CHUNK_SIZE), None);
    assert_eq!(list.insert(1), CHUNK_SIZE - 1);
    assert_eq!(list.insert(2), CHUNK_SIZE);
    assert_eq!(list.insert(3), 3 * CHUNK_SIZE + 17);
    assert_eq!(list.insert(4), total + 3);
    assert_eq!(list.set(CHUNK_SIZE, 9), Some(2));
    assert_eq!(list.get(CHUNK_SIZE), Some(&9));
    assert_eq!(list.insert(5), total + 4);
    assert_eq!(list.capacity(), total + CHUNK_SIZE);
    assert_eq!(list.serialize().len(), total + 5);
}
