use gm8emulator::instance::{Instance, InstanceState, NOONE};
use gm8emulator::instancelist::saving::InstanceListData;
use gm8emulator::instancelist::InstanceList;
use std::collections::HashMap;

fn inst(id: i32, object: i32, parents: &[i32], depth: f64) -> Instance {
    Instance::new(id, object, parents.to_vec(), depth.to_bits())
}

fn drawn(list: &InstanceList) -> Vec<usize> {
    let mut it = list.iter_by_drawing();
    let mut out = Vec::new();
    while let Some(h) = it.next(list) {
        out.push(h);
    }
    out
}

fn by_identity(list: &InstanceList, object: i32) -> Vec<usize> {
    let mut it = list.iter_by_identity(object);
    let mut out = Vec::new();
    while let Some(h) = it.next(list) {
        out.push(h);
    }
    out
}

fn by_object(list: &InstanceList, object: i32) -> Vec<usize> {
    let mut it = list.iter_by_object(object);
    let mut out = Vec::new();
    while let Some(h) = it.next(list) {
        out.push(h);
    }
    out
}

fn ids(list: &InstanceList, handles: &[usize]) -> Vec<i32> {
    handles.iter().map(|h| list.get(*h).id).collect()
}

#[test]
fn counts_follow_the_identity_index() {
    let mut list = InstanceList::new();
    let first = list.insert(inst(100001, 3, &[], 0.0));
    list.insert(inst(100002, 3, &[], 0.0));
    list.insert(inst(100003, 5, &[3], 0.0));
    assert_eq!(list.count(3), 1);
    assert_eq!(list.count(5), 0);
    assert_eq!(list.count(4), 0);
    assert_eq!(by_object(&list, 3).len(), 2);
    assert_eq!(by_object(&list, 5).len(), 1);
    assert_eq!(list.instance_at(0), list.get(first).id);
    assert_eq!(list.instance_at(0), 100001);
}

#[test]
fn counts_take_in_the_own_object_where_the_parents_name_it() {
    let mut list = InstanceList::new();
    list.insert(inst(100001, 3, &[3], 0.0));
    list.insert(inst(100002, 3, &[3], 0.0));
    let c = list.insert(inst(100003, 5, &[5, 3], 0.0));
    assert_eq!(list.count(3), 3);
    assert_eq!(list.count(5), 1);
    assert_eq!(list.count(4), 0);
    list.deactivate(c);
    assert_eq!(list.count(3), 2);
    assert_eq!(list.count(5), 0);
}

#[test]
fn draw_sort_puts_nan_first_then_descending_and_is_stable() {
    let mut list = InstanceList::new();
    let h1 = list.insert(inst(1, 0, &[], 1.0));
    let h2 = list.insert(inst(2, 0, &[], f64::NAN));
    let h3 = list.insert(inst(3, 0, &[], -2.0));
    let h4 = list.insert(inst(4, 0, &[], f64::NAN));
    let h5 = list.insert(inst(5, 0, &[], 1.0));
    list.draw_sort();
    assert_eq!(drawn(&list), vec![h2, h4, h1, h5, h3]);
    assert_eq!(ids(&list, &drawn(&list)), vec![2, 4, 1, 5, 3]);
}

#[test]
fn draw_sort_of_many_depths() {
    let mut list = InstanceList::new();
    let depths = [5.0, -1.0, 5.0, 1000000.0, 0.0, -0.0, f64::INFINITY, f64::NEG_INFINITY, 2.5];
    for (i, d) in depths.iter().enumerate() {
        list.insert(inst(i as i32, 0, &[], *d));
    }
    list.draw_sort();
    assert_eq!(ids(&list, &drawn(&list)), vec![6, 3, 0, 2, 8, 4, 5, 1, 7]);
    list.draw_sort();
    assert_eq!(ids(&list, &drawn(&list)), vec![6, 3, 0, 2, 8, 4, 5, 1, 7]);
}

#[test]
fn draw_sort_follows_set_depth() {
    let mut list = InstanceList::new();
    let a = list.insert(inst(1, 0, &[], 0.0));
    let b = list.insert(inst(2, 0, &[], 0.0));
    list.set_depth(a, (-5.0f64).to_bits());
    assert_eq!(drawn(&list), vec![a, b]);
    list.draw_sort();
    assert_eq!(drawn(&list), vec![b, a]);
    assert_eq!(list.get(a).depth, (-5.0f64).to_bits());
}

#[test]
fn cursor_does_not_visit_what_was_inserted_after_it_was_made() {
    let mut list = InstanceList::new();
    let a = list.insert(inst(1, 0, &[], 0.0));
    let b = list.insert(inst(2, 0, &[], 0.0));
    let mut it = list.iter_by_drawing();
    assert_eq!(it.next(&list), Some(a));
    let c = list.insert(inst(3, 0, &[], 0.0));
    assert_eq!(it.next(&list), Some(b));
    assert_eq!(it.next(&list), None);
    assert_eq!(it.next(&list), None);
    assert_eq!(drawn(&list), vec![a, b, c]);
}

#[test]
fn cursor_skips_what_was_deactivated_before_it_got_there() {
    let mut list = InstanceList::new();
    let a = list.insert(inst(1, 0, &[], 0.0));
    let b = list.insert(inst(2, 0, &[], 0.0));
    let c = list.insert(inst(3, 0, &[], 0.0));
    let mut it = list.iter_by_drawing();
    assert_eq!(it.next(&list), Some(a));
    list.deactivate(b);
    assert_eq!(it.next(&list), Some(c));
    assert_eq!(it.next(&list), None);
}

#[test]
fn cursor_survives_deleting_the_current_instance() {
    let mut list = InstanceList::new();
    let a = list.insert(inst(1, 0, &[], 0.0));
    let b = list.insert(inst(2, 0, &[], 0.0));
    let mut it = list.iter_by_drawing();
    assert_eq!(it.next(&list), Some(a));
    list.mark_deleted(a);
    assert_eq!(list.get(a).state, InstanceState::Deleted);
    assert_eq!(it.next(&list), Some(b));
    assert_eq!(it.next(&list), None);
}

#[test]
fn inactive_cursor_visits_only_inactive_instances() {
    let mut list = InstanceList::new();
    let a = list.insert(inst(1, 0, &[], 0.0));
    let b = list.insert(inst(2, 0, &[], 0.0));
    let c = list.insert(inst(3, 0, &[], 0.0));
    list.deactivate(a);
    list.deactivate(c);
    list.mark_deleted(b);
    let mut it = list.iter_inactive();
    assert_eq!(it.next(&list), Some(a));
    assert_eq!(it.next(&list), Some(c));
    assert_eq!(it.next(&list), None);
    assert_eq!(drawn(&list), Vec::<usize>::new());
}

#[test]
fn handle_is_filed_once_under_each_identity() {
    let mut list = InstanceList::new();
    let a = list.insert(inst(1, 7, &[5, 3], 0.0));
    let b = list.insert(inst(2, 5, &[3], 0.0));
    let c = list.insert(inst(3, 3, &[], 0.0));
    assert_eq!(by_identity(&list, 7), Vec::<usize>::new());
    assert_eq!(by_identity(&list, 5), vec![a]);
    assert_eq!(by_identity(&list, 3), vec![a, b]);
    assert_eq!(by_identity(&list, 1), Vec::<usize>::new());
    assert_eq!(by_object(&list, 7), vec![a]);
    assert_eq!(by_object(&list, 5), vec![b]);
    assert_eq!(by_object(&list, 3), vec![c]);
}

#[test]
fn a_repeated_identity_is_filed_once() {
    let mut list = InstanceList::new();
    let a = list.insert(inst(1, 3, &[3], 0.0));
    assert_eq!(by_identity(&list, 3), vec![a]);
    assert_eq!(list.count(3), 1);
    let b = list.insert(inst(2, 7, &[5, 3, 5, 7, 3], 0.0));
    assert_eq!(by_identity(&list, 3), vec![a, b]);
    assert_eq!(by_identity(&list, 5), vec![b]);
    assert_eq!(by_identity(&list, 7), vec![b]);
    assert_eq!(list.count(3), 2);
    assert_eq!(list.count(5), 1);
    assert_eq!(list.count(7), 1);
    let c = list.insert(inst(3, 9, &[4, 4], 0.0));
    assert_eq!(by_identity(&list, 4), vec![c]);
    assert_eq!(by_identity(&list, 9), Vec::<usize>::new());
    assert_eq!(by_object(&list, 9), vec![c]);
    list.refresh_maps();
    assert_eq!(by_identity(&list, 3), vec![a, b]);
    assert_eq!(by_identity(&list, 5), vec![b]);
    assert_eq!(by_identity(&list, 7), vec![b]);
    assert_eq!(by_identity(&list, 4), vec![c]);
    assert_eq!(by_identity(&list, 9), Vec::<usize>::new());
}

#[test]
fn refresh_maps_is_idempotent_and_drops_what_is_not_active() {
    let mut list = InstanceList::new();
    let a = list.insert(inst(1, 3, &[], 2.0));
    let b = list.insert(inst(2, 5, &[3], 1.0));
    let c = list.insert(inst(3, 5, &[3], 3.0));
    list.deactivate(b);
    list.draw_sort();
    list.refresh_maps();
    let once = (by_identity(&list, 3), by_identity(&list, 5), by_object(&list, 5), by_object(&list, 3));
    assert_eq!(once.0, vec![c]);
    assert_eq!(once.1, Vec::<usize>::new());
    assert_eq!(once.2, vec![c]);
    assert_eq!(once.3, vec![a]);
    list.refresh_maps();
    let twice = (by_identity(&list, 3), by_identity(&list, 5), by_object(&list, 5), by_object(&list, 3));
    assert_eq!(once, twice);
    list.activate(b);
    assert_eq!(list.count(3), 1);
    assert_eq!(by_object(&list, 5), vec![c]);
    list.refresh_maps();
    assert_eq!(list.count(3), 2);
    assert_eq!(by_identity(&list, 3), vec![c, b]);
    assert_eq!(by_object(&list, 5), vec![c, b]);
}

#[test]
fn identity_cursor_gives_nothing_that_was_filed_after_it_was_made() {
    let mut list = InstanceList::new();
    let a = list.insert(inst(1, 3, &[3], 0.0));
    let mut it = list.iter_by_identity(3);
    let b = list.insert(inst(2, 5, &[3], 0.0));
    assert_eq!(it.next(&list), Some(a));
    assert_eq!(it.next(&list), None);
    let mut it = list.iter_by_identity(3);
    let mut empty = list.iter_by_identity(9);
    list.insert(inst(3, 9, &[9], 0.0));
    assert_eq!(empty.next(&list), None);
    list.insert(inst(4, 3, &[3], 0.0));
    list.deactivate(a);
    assert_eq!(it.next(&list), Some(b));
    assert_eq!(it.next(&list), None);
}

#[test]
fn object_cursor_ends_behind_the_count_it_was_made_with() {
    let mut list = InstanceList::new();
    let a = list.insert(inst(1, 3, &[], 0.0));
    let b = list.insert(inst(2, 3, &[], 0.0));
    let mut it = list.iter_by_object(3);
    let mut other = list.iter_by_object(3);
    let c = list.insert(inst(3, 3, &[], 0.0));
    list.deactivate(a);
    list.deactivate(b);
    assert_eq!(it.next(&list), None);
    list.activate(b);
    assert_eq!(other.next(&list), Some(b));
    assert_eq!(other.next(&list), None);
    let mut late = list.iter_by_object(3);
    assert_eq!(late.next(&list), Some(b));
    assert_eq!(late.next(&list), Some(c));
    assert_eq!(late.next(&list), None);
}

#[test]
fn index_cursor_stays_inside_a_list_that_became_shorter() {
    let mut list = InstanceList::new();
    let a = list.insert(inst(1, 3, &[3], 0.0));
    let b = list.insert(inst(2, 3, &[3], 0.0));
    let c = list.insert(inst(3, 3, &[3], 0.0));
    let mut by_object = list.iter_by_object(3);
    let mut by_identity = list.iter_by_identity(3);
    list.deactivate(b);
    list.deactivate(c);
    list.refresh_maps();
    assert_eq!(by_object.next(&list), Some(a));
    assert_eq!(by_object.next(&list), None);
    assert_eq!(by_identity.next(&list), Some(a));
    assert_eq!(by_identity.next(&list), None);
}

#[test]
fn get_by_instid_finds_the_first_active_match() {
    let mut list = InstanceList::new();
    let a = list.insert(inst(10, 0, &[], 0.0));
    let b = list.insert(inst(11, 0, &[], 0.0));
    let c = list.insert(inst(11, 0, &[], 0.0));
    assert_eq!(list.get_by_instid(10), Some(a));
    assert_eq!(list.get_by_instid(11), Some(b));
    assert_eq!(list.get_by_instid(12), None);
    list.deactivate(b);
    assert_eq!(list.get_by_instid(11), Some(c));
    list.mark_deleted(c);
    assert_eq!(list.get_by_instid(11), None);
}

#[test]
fn counts_tell_active_from_present() {
    let mut list = InstanceList::new();
    assert!(!list.any_active());
    let a = list.insert(inst(1, 0, &[], 0.0));
    let b = list.insert(inst(2, 0, &[], 0.0));
    let c = list.insert(inst(3, 0, &[], 0.0));
    assert!(list.any_active());
    assert_eq!(list.count_all_active(), 3);
    assert_eq!(list.count_all(), 3);
    list.deactivate(a);
    list.mark_deleted(b);
    assert_eq!(list.count_all_active(), 1);
    assert_eq!(list.count_all(), 2);
    assert_eq!(list.instance_at(0), 2);
    assert_eq!(list.instance_at(1), 3);
    assert_eq!(list.instance_at(2), NOONE);
    assert_eq!(NOONE, -4);
    list.deactivate(c);
    assert!(!list.any_active());
    list.activate(a);
    assert!(list.any_active());
    assert_eq!(list.get(a).state, InstanceState::Active);
    list.activate(b);
    assert_eq!(list.get(b).state, InstanceState::Deleted);
    list.deactivate(b);
    assert_eq!(list.get(b).state, InstanceState::Deleted);
}

#[test]
fn dummies_take_handles_but_are_never_listed() {
    let mut list = InstanceList::new();
    let a = list.insert(inst(1, 3, &[3], 0.0));
    let d = list.insert_dummy(inst(2, 3, &[3], 0.0));
    assert_eq!(d, 1);
    assert_eq!(list.get(d).id, 2);
    assert_eq!(drawn(&list), vec![a]);
    assert_eq!(list.count(3), 1);
    assert_eq!(list.count_all(), 1);
    list.remove_dummy(d);
    assert!(list.try_get(d).is_none());
    assert_eq!(list.insert(inst(3, 3, &[], 0.0)), d);
}

#[test]
fn remove_with_compacts_the_lists() {
    let mut list = InstanceList::new();
    let a = list.insert(inst(1, 3, &[3], 0.0));
    let b = list.insert(inst(2, 3, &[3], 0.0));
    let c = list.insert(inst(3, 5, &[3], 0.0));
    list.mark_deleted(b);
    list.remove_with(|i: &Instance| i.state == InstanceState::Deleted);
    assert!(list.try_get(b).is_none());
    assert_eq!(drawn(&list), vec![a, c]);
    assert_eq!(by_identity(&list, 3), vec![a, c]);
    assert_eq!(by_object(&list, 3), vec![a]);
    assert_eq!(list.insert(inst(4, 3, &[], 0.0)), b);
    assert_eq!(drawn(&list), vec![a, c, b]);
}

#[test]
fn remove_with_without_a_match_keeps_stale_indexes() {
    let mut list = InstanceList::new();
    let a = list.insert(inst(1, 3, &[3], 0.0));
    list.deactivate(a);
    list.remove_with(|i: &Instance| i.id == 99);
    list.activate(a);
    assert_eq!(by_identity(&list, 3), vec![a]);
}

#[test]
fn remove_as_vec_returns_the_instances() {
    let mut list = InstanceList::new();
    list.insert(inst(1, 3, &[3], 0.0));
    let b = list.insert(inst(2, 4, &[4], 0.0));
    list.insert(inst(3, 3, &[3], 0.0));
    let removed = list.remove_as_vec(|i: &Instance| i.object_index == 3);
    assert_eq!(removed.iter().map(|i| i.id).collect::<Vec<_>>(), vec![1, 3]);
    assert_eq!(drawn(&list), vec![b]);
    assert_eq!(list.count(3), 0);
    assert_eq!(list.count(4), 1);
    let none = list.remove_as_vec(|i: &Instance| i.object_index == 3);
    assert!(none.is_empty());
}

#[test]
fn obj_count_hint_changes_nothing() {
    let mut list = InstanceList::new();
    let a = list.insert(inst(1, 3, &[3], 0.0));
    list.obj_count_hint(100);
    list.obj_count_hint(0);
    assert_eq!(drawn(&list), vec![a]);
    assert_eq!(list.count(3), 1);
}

#[test]
fn saved_store_is_dense_and_ranked() {
    let mut list = InstanceList::new();
    for i in 0..6 {
        list.insert(inst(i, if i % 2 == 0 { 3 } else { 5 }, &[9], (i as f64) * if i % 2 == 0 { 1.0 } else { -1.0 }));
    }
    list.mark_deleted(1);
    list.mark_deleted(4);
    list.remove_with(|i: &Instance| i.state == InstanceState::Deleted);
    list.draw_sort();
    assert_eq!(drawn(&list), vec![2, 0, 3, 5]);
    let data = list.serialize();
    assert_eq!(data.chunks.iter().map(|i| i.id).collect::<Vec<_>>(), vec![0, 2, 3, 5]);
    assert_eq!(data.draw_order, vec![1, 0, 2, 3]);
    assert_eq!(data.object_id_map.get(&3), Some(&vec![0, 1]));
    assert_eq!(data.object_id_map.get(&5), Some(&vec![2, 3]));
    assert_eq!(data.object_id_map_inherit.get(&9), Some(&vec![0, 1, 2, 3]));
    assert_eq!(data.object_id_map.len(), 2);
    assert_eq!(data.object_id_map_inherit.get(&3), None);
    assert_eq!(data.object_id_map_inherit.len(), 1);
}

#[test]
fn saved_and_restored_store_iterates_alike() {
    let mut list = InstanceList::new();
    for i in 0..10 {
        list.insert(inst(100 + i, i % 3, &[7], f64::from(i % 4)));
    }
    list.mark_deleted(0);
    list.mark_deleted(5);
    list.remove_with(|i: &Instance| i.state == InstanceState::Deleted);
    list.insert(inst(200, 1, &[7], 2.5));
    list.deactivate(3);
    list.draw_sort();
    let before_draw = ids(&list, &drawn(&list));
    let before_identity = ids(&list, &by_identity(&list, 7));
    let before_object = ids(&list, &by_object(&list, 1));

    let restored = InstanceList::deserialize(list.serialize()).unwrap();
    assert_eq!(ids(&restored, &drawn(&restored)), before_draw);
    assert_eq!(ids(&restored, &by_identity(&restored, 7)), before_identity);
    assert_eq!(ids(&restored, &by_object(&restored, 1)), before_object);
    let mut handles = drawn(&restored);
    let mut inactive = restored.iter_inactive();
    while let Some(h) = inactive.next(&restored) {
        handles.push(h);
    }
    handles.sort();
    assert_eq!(handles, (0..9).collect::<Vec<usize>>());
    assert_eq!(restored.count_all(), list.count_all());
}

#[test]
fn deserialize_refuses_lists_that_describe_no_store() {
    let data = |order: Vec<usize>, direct: Vec<usize>| {
        let mut map = HashMap::new();
        map.insert(3, direct);
        InstanceListData {
            chunks: vec![inst(1, 3, &[], 0.0), inst(2, 3, &[], 0.0)],
            draw_order: order,
            object_id_map: map,
            object_id_map_inherit: HashMap::new(),
        }
    };
    assert!(InstanceList::deserialize(data(vec![0, 1], vec![0, 1])).is_some());
    assert!(InstanceList::deserialize(data(vec![1], vec![1])).is_some());
    assert!(InstanceList::deserialize(data(vec![0, 2], vec![0])).is_none());
    assert!(InstanceList::deserialize(data(vec![0, 0], vec![0])).is_none());
    assert!(InstanceList::deserialize(data(vec![0], vec![1])).is_none());
    assert!(InstanceList::deserialize(data(vec![0], vec![5])).is_none());
}

#[test]
fn callers_can_test_what_the_store_asks_for() {
    let mut list = InstanceList::new();
    assert_eq!(list.capacity(), 2048);
    let a = list.insert(inst(1, 0, &[], 0.0));
    let d = list.insert_dummy(inst(2, 0, &[], 0.0));
    assert!(list.is_listed(a));
    assert!(!list.is_listed(d));
    assert!(!list.is_listed(99));
    assert!(list.try_get(a).is_some());
    assert!(list.try_get(2).is_none());
    let it = list.iter_by_drawing();
    let inactive = list.iter_inactive();
    assert!(it.fits(&list) && inactive.fits(&list));
    list.insert(inst(3, 0, &[], 0.0));
    assert!(it.fits(&list));
    list.mark_deleted(a);
    list.remove_with(|i: &Instance| i.state == InstanceState::Deleted);
    assert!(it.fits(&list));
    list.mark_deleted(2);
    list.remove_with(|i: &Instance| i.state == InstanceState::Deleted);
    assert!(!it.fits(&list));
    assert!(!inactive.fits(&list));
    assert!(list.iter_by_drawing().fits(&list));
}
