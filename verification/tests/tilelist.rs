use gm8emulator::instance::Tile;
use gm8emulator::tilelist::{TileList, TileListData};

fn tile(id: i32, depth: f64) -> Tile {
    Tile { id, depth: depth.to_bits() }
}

fn drawn(list: &TileList) -> Vec<usize> {
    let mut it = list.iter_by_drawing();
    let mut out = Vec::new();
    while let Some(h) = it.next(list) {
        out.push(h);
    }
    out
}

#[test]
fn tiles_are_drawn_in_insertion_order_until_sorted() {
    let mut list = TileList::new();
    let a = list.insert(tile(1, 1.0));
    let b = list.insert(tile(2, 3.0));
    let c = list.insert(tile(3, f64::NAN));
    let d = list.insert(tile(4, 3.0));
    assert_eq!(drawn(&list), vec![a, b, c, d]);
    list.draw_sort();
    assert_eq!(drawn(&list), vec![c, b, d, a]);
    assert_eq!(list.get(b).id, 2);
}

#[test]
fn tile_cursor_sees_the_list_as_it_is_now() {
    let mut list = TileList::new();
    let a = list.insert(tile(1, 0.0));
    let mut it = list.iter_by_drawing();
    assert_eq!(it.next(&list), Some(a));
    assert_eq!(it.next(&list), None);
    let b = list.insert(tile(2, 0.0));
    assert_eq!(it.next(&list), Some(b));
    assert_eq!(it.next(&list), None);
}

#[test]
fn get_by_tileid_finds_the_first_match() {
    let mut list = TileList::new();
    let a = list.insert(tile(10, 0.0));
    let b = list.insert(tile(11, 0.0));
    list.insert(tile(11, 5.0));
    assert_eq!(list.get_by_tileid(10), Some(a));
    assert_eq!(list.get_by_tileid(11), Some(b));
    assert_eq!(list.get_by_tileid(12), None);
}

#[test]
fn removing_a_tile_frees_its_handle() {
    let mut list = TileList::new();
    let a = list.insert(tile(1, 0.0));
    let b = list.insert(tile(2, 0.0));
    let c = list.insert(tile(3, 0.0));
    list.remove(b);
    list.remove(b);
    list.remove(77);
    assert_eq!(drawn(&list), vec![a, c]);
    assert_eq!(list.insert(tile(4, 0.0)), b);
    assert_eq!(drawn(&list), vec![a, c, b]);
}

#[test]
fn remove_with_removes_matching_tiles() {
    let mut list = TileList::new();
    let a = list.insert(tile(1, 0.0));
    list.insert(tile(2, 10.0));
    let c = list.insert(tile(3, 0.0));
    list.remove_with(|t: &Tile| t.depth == 10.0f64.to_bits());
    assert_eq!(drawn(&list), vec![a, c]);
    list.remove_with(|t: &Tile| t.id == 99);
    assert_eq!(drawn(&list), vec![a, c]);
}

#[test]
fn clear_removes_every_tile() {
    let mut list = TileList::new();
    list.insert(tile(1, 0.0));
    list.insert(tile(2, 0.0));
    list.clear();
    assert_eq!(drawn(&list), Vec::<usize>::new());
    assert_eq!(list.get_by_tileid(1), None);
    assert_eq!(list.insert(tile(3, 0.0)), 0);
}

#[test]
fn saved_tiles_are_dense_and_ranked() {
    let mut list = TileList::new();
    for i in 0..5 {
        list.insert(tile(i, f64::from(i)));
    }
    list.remove(1);
    list.draw_sort();
    assert_eq!(drawn(&list), vec![4, 3, 2, 0]);
    let data = list.serialize();
    assert_eq!(data.chunks.iter().map(|t| t.id).collect::<Vec<_>>(), vec![0, 2, 3, 4]);
    assert_eq!(data.draw_order, vec![3, 2, 1, 0]);
    let restored = TileList::deserialize(data).unwrap();
    assert_eq!(drawn(&restored).iter().map(|h| restored.get(*h).id).collect::<Vec<_>>(), vec![4, 3, 2, 0]);
}

#[test]
fn tile_deserialize_refuses_bad_lists() {
    let tiles = || vec![tile(1, 0.0), tile(2, 0.0)];
    assert!(TileList::deserialize(TileListData { chunks: tiles(), draw_order: vec![1, 0] }).is_some());
    assert!(TileList::deserialize(TileListData { chunks: tiles(), draw_order: vec![1, 1] }).is_none());
    assert!(TileList::deserialize(TileListData { chunks: tiles(), draw_order: vec![2] }).is_none());
}

#[test]
fn callers_can_test_what_the_tile_store_asks_for() {
    let mut list = TileList::new();
    assert_eq!(list.capacity(), 2048);
    let a = list.insert(tile(1, 0.0));
    assert_eq!(list.try_get(a).map(|t| t.id), Some(1));
    assert!(list.try_get(1).is_none());
    list.remove(a);
    assert!(list.try_get(a).is_none());
}
