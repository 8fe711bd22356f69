use stable_vec::StableVec;

fn filled(values: &[i32]) -> StableVec<i32> {
    let mut sv = StableVec::new();
    for v in values {
        sv.push(*v);
    }
    sv
}

#[test]
fn new_vector_is_empty_and_compact() {
    let sv: StableVec<i32> = StableVec::new();
    assert_eq!(sv.num_elements(), 0);
    assert!(sv.is_compact());
    assert!(sv.get(0).is_none());
    assert_eq!(sv.into_vec(), Vec::<i32>::new());
}

#[test]
fn push_returns_consecutive_slots() {
    let mut sv = StableVec::new();
    assert_eq!(sv.push('a'), 0);
    assert_eq!(sv.push('b'), 1);
    sv.remove(0);
    assert_eq!(sv.push('c'), 2);
    sv.pop();
    assert_eq!(sv.push('d'), 3);
    assert_eq!(sv.num_elements(), 2);
}

#[test]
fn remove_leaves_other_slots_alone() {
    let mut sv = filled(&[10, 11, 12, 13]);
    assert_eq!(sv.remove(1), Some(11));
    assert_eq!(sv.remove(1), None);
    assert_eq!(sv.get(0), Some(&10));
    assert_eq!(sv.get(1), None);
    assert_eq!(sv.get(2), Some(&12));
    assert_eq!(sv.get(3), Some(&13));
    assert_eq!(sv.get(4), None);
    assert!(sv.get(1).is_none());
    assert!(sv.get(2).is_some());
    assert_eq!(sv.num_elements(), 3);
    assert!(!sv.is_compact());
}

#[test]
fn remove_past_the_end_returns_nothing() {
    let mut sv = filled(&[1, 2]);
    assert_eq!(sv.remove(2), None);
    assert_eq!(sv.remove(usize::MAX), None);
    assert_eq!(sv.num_elements(), 2);
    assert!(sv.is_compact());
    assert_eq!(sv.into_vec(), vec![1, 2]);
}

#[test]
fn pop_skips_trailing_tombstones() {
    let mut sv = filled(&[1, 2, 3, 4]);
    sv.remove(3);
    sv.remove(2);
    assert_eq!(sv.pop(), Some(2));
    assert_eq!(sv.pop(), Some(1));
    assert_eq!(sv.pop(), None);
    assert_eq!(sv.num_elements(), 0);
    assert_eq!(sv.push(5), 4);
}

#[test]
fn get_mut_changes_the_value_only() {
    let mut sv = filled(&[1, 2, 3]);
    *sv.get_mut(1).unwrap() = 20;
    assert_eq!(sv.get(0), Some(&1));
    assert_eq!(sv.get(1), Some(&20));
    assert_eq!(sv.get(2), Some(&3));
    assert_eq!(sv.num_elements(), 3);
}

#[test]
fn get_mut_finds_nothing_in_a_tombstone_or_past_the_end() {
    let mut sv = filled(&[1, 2, 3]);
    sv.remove(1);
    assert!(sv.get_mut(1).is_none());
    assert!(sv.get_mut(3).is_none());
    assert_eq!(sv.num_elements(), 2);
    assert_eq!(sv.into_vec(), vec![1, 3]);
}

#[test]
fn make_compact_keeps_the_order() {
    let mut sv = filled(&[0, 1, 2, 3, 4, 5, 6]);
    sv.remove(0);
    sv.remove(3);
    sv.remove(4);
    sv.remove(6);
    assert!(!sv.is_compact());
    sv.make_compact();
    assert!(sv.is_compact());
    assert_eq!(sv.num_elements(), 3);
    assert_eq!(sv.get(0), Some(&1));
    assert_eq!(sv.get(1), Some(&2));
    assert_eq!(sv.get(2), Some(&5));
    assert!(sv.get(3).is_none());
    assert_eq!(sv.push(7), 3);
    assert_eq!(sv.into_vec(), vec![1, 2, 5, 7]);
}

#[test]
fn make_compact_on_a_compact_vector_changes_nothing() {
    let mut sv = filled(&[3, 1, 2]);
    sv.make_compact();
    assert_eq!(sv.num_elements(), 3);
    assert_eq!(sv.into_vec(), vec![3, 1, 2]);
}

#[test]
fn make_compact_of_tombstones_only_empties_the_vector() {
    let mut sv = filled(&[1, 2]);
    sv.remove(0);
    sv.remove(1);
    sv.make_compact();
    assert!(sv.is_compact());
    assert_eq!(sv.num_elements(), 0);
    assert_eq!(sv.push(9), 0);
}

#[test]
fn reorder_make_compact_keeps_the_values() {
    let mut sv = filled(&[0, 1, 2, 3, 4, 5, 6]);
    sv.remove(0);
    sv.remove(3);
    sv.remove(6);
    sv.reorder_make_compact();
    assert!(sv.is_compact());
    assert_eq!(sv.num_elements(), 4);
    for slot in 0..4 {
        assert!(sv.get(slot).is_some());
    }
    assert!(sv.get(4).is_none());
    let mut left = sv.into_vec();
    left.sort();
    assert_eq!(left, vec![1, 2, 4, 5]);
}

#[test]
fn reorder_make_compact_keeps_duplicates() {
    let mut sv = filled(&[7, 7, 8, 7, 8]);
    sv.remove(1);
    sv.remove(2);
    sv.reorder_make_compact();
    assert!(sv.is_compact());
    let mut left = sv.into_vec();
    left.sort();
    assert_eq!(left, vec![7, 7, 8]);
}

#[test]
fn reorder_make_compact_of_tombstones_only_empties_the_vector() {
    let mut sv = filled(&[1, 2, 3]);
    sv.remove(0);
    sv.remove(1);
    sv.remove(2);
    sv.reorder_make_compact();
    assert!(sv.is_compact());
    assert_eq!(sv.num_elements(), 0);
    assert_eq!(sv.into_vec(), Vec::<i32>::new());
}

#[test]
fn into_vec_skips_tombstones() {
    let mut sv = filled(&[5, 6, 7, 8]);
    sv.remove(0);
    sv.remove(2);
    assert_eq!(sv.into_vec(), vec![6, 8]);
}

#[test]
fn values_that_are_not_copied_move_through() {
    let mut sv = StableVec::new();
    sv.push(vec![1, 2]);
    sv.push(vec![3]);
    sv.push(Vec::new());
    assert_eq!(sv.remove(1), Some(vec![3]));
    sv.get_mut(0).unwrap().push(9);
    sv.make_compact();
    assert_eq!(sv.into_vec(), vec![vec![1, 2, 9], Vec::new()]);
}
