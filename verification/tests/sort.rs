use gm8emulator::instancelist::iter::nb_coll_iter_advance;
use gm8emulator::sort::sort_by_depth;

#[test]
fn sort_by_depth_is_stable_with_nan_first() {
    let depth = |d: f64| d.to_bits();
    let mut v = vec![
        (depth(1.0), 0usize),
        (depth(f64::NAN), 1),
        (depth(-2.0), 2),
        (depth(-f64::NAN), 3),
        (depth(1.0), 4),
        (depth(0.0), 5),
        (depth(-0.0), 6),
        (depth(7.5), 7),
    ];
    sort_by_depth(&mut v);
    let handles: Vec<usize> = v.iter().map(|e| e.1).collect();
    assert_eq!(handles, vec![1, 3, 7, 0, 4, 5, 6, 2]);
    let mut empty: Vec<(u64, usize)> = Vec::new();
    sort_by_depth(&mut empty);
    assert!(empty.is_empty());
    let mut one = vec![(depth(3.0), 9usize)];
    sort_by_depth(&mut one);
    assert_eq!(one, vec![(depth(3.0), 9)]);
}

#[test]
fn sort_by_depth_sorts_a_reversed_list() {
    let mut v: Vec<(u64, usize)> = (0..200).map(|i| (f64::from(i).to_bits(), i as usize)).collect();
    sort_by_depth(&mut v);
    let handles: Vec<usize> = v.iter().map(|e| e.1).collect();
    assert_eq!(handles, (0..200).rev().collect::<Vec<usize>>());
}

#[test]
fn advancing_a_plain_cursor() {
    let coll = vec![7usize, 8, 9];
    let mut idx = 1;
    assert_eq!(nb_coll_iter_advance(&coll, &mut idx), Some(8));
    assert_eq!(idx, 2);
    assert_eq!(nb_coll_iter_advance(&coll, &mut idx), Some(9));
    assert_eq!(nb_coll_iter_advance(&coll, &mut idx), None);
    assert_eq!(idx, 3);
    let mut far = 10;
    assert_eq!(nb_coll_iter_advance(&coll, &mut far), None);
    assert_eq!(far, 10);
}
