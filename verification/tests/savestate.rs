use gm8emulator::savestate::{defrag, defrag_map};
use std::collections::HashMap;

#[test]
fn defrag_gives_every_handle_its_rank() {
    assert_eq!(defrag(&vec![7, 300, 2, 9]), vec![1, 3, 0, 2]);
    assert_eq!(defrag(&vec![]), Vec::<usize>::new());
    assert_eq!(defrag(&vec![5]), vec![0]);
    assert_eq!(defrag(&vec![0, 1, 2]), vec![0, 1, 2]);
}

#[test]
fn defrag_map_ranks_against_the_whole_list() {
    let all = vec![7, 300, 2, 9];
    let mut map = HashMap::new();
    map.insert(1, vec![300, 2]);
    map.insert(-4, vec![9]);
    map.insert(8, vec![]);
    let out = defrag_map(&map, &all);
    assert_eq!(out.len(), 3);
    assert_eq!(out.get(&1), Some(&vec![3, 0]));
    assert_eq!(out.get(&-4), Some(&vec![2]));
    assert_eq!(out.get(&8), Some(&vec![]));
}
