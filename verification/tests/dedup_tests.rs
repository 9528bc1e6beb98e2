use suckless_hn::dedup::{contains_sorted, min_id, new_ids};

#[test]
fn it_returns_only_new_stories() {
    let stored: Vec<i64> = vec![];
    assert_eq!(vec![1, 2, 3], new_ids(&vec![1, 2, 3], &stored));

    let story1_id = 7001;
    let story2_id = 7002;
    let stored: Vec<i64> = vec![story1_id, story2_id];
    assert_eq!(vec![1], new_ids(&vec![1, story1_id, story2_id], &stored));
}

#[test]
fn dedup_is_set_difference_in_candidate_order() {
    let stored: Vec<i64> = vec![2, 5];
    let candidates: Vec<i64> = vec![1, 2, 3, 5, 6];
    assert_eq!(vec![1, 3, 6], new_ids(&candidates, &stored));
}

#[test]
fn dedup_trivial_cases() {
    let empty: Vec<i64> = vec![];
    assert_eq!(empty, new_ids(&vec![], &vec![1, 2, 3]));
    assert_eq!(empty, new_ids(&vec![], &vec![]));

    // nothing stored: candidates come back unchanged, order preserved
    assert_eq!(vec![9, 3, 7], new_ids(&vec![9, 3, 7], &vec![]));
}

#[test]
fn dedup_preserves_unsorted_candidate_order() {
    let stored: Vec<i64> = vec![4, 8];
    assert_eq!(vec![10, 1, 5], new_ids(&vec![10, 4, 1, 8, 5], &stored));
}

#[test]
fn dedup_never_reports_a_stored_id() {
    let stored: Vec<i64> = vec![1, 2, 3, 5, 8, 13];
    let candidates: Vec<i64> = (0..20).collect();
    let fresh = new_ids(&candidates, &stored);
    for id in &fresh {
        assert!(!stored.contains(id));
    }
    for id in &candidates {
        assert_eq!(stored.contains(id), !fresh.contains(id));
    }
}

#[test]
fn binary_search_over_sorted_ids() {
    let stored: Vec<i64> = vec![2, 2, 4, 9, 9, 40];
    assert!(contains_sorted(&stored, 2));
    assert!(contains_sorted(&stored, 4));
    assert!(contains_sorted(&stored, 9));
    assert!(contains_sorted(&stored, 40));
    assert!(!contains_sorted(&stored, 1));
    assert!(!contains_sorted(&stored, 3));
    assert!(!contains_sorted(&stored, 41));
    assert!(!contains_sorted(&vec![], 0));
}

#[test]
fn min_id_finds_the_smallest() {
    assert_eq!(3, min_id(&vec![9, 3, 7]));
    assert_eq!(-4, min_id(&vec![9, -4, 7]));
    assert_eq!(5, min_id(&vec![5]));
}
