use sway_balance::axis::Axis;
use sway_balance::reorder::{first_faulty, infer_gap, largest_from, min_swaps};
use sway_balance::tree::{Layout, Node, Rect};

fn rect(x: i32, w: i32) -> Rect {
    Rect { x, y: 0, width: w, height: 0 }
}

fn leaf(id: i64, x: i32, w: i32) -> Node {
    Node { id, layout: Layout::Other, rect: rect(x, w), focused: false, children: vec![] }
}

fn container(id: i64, x: i32, w: i32, children: Vec<Node>) -> Node {
    Node { id, layout: Layout::SplitH, rect: rect(x, w), focused: false, children }
}

fn apply(mut order: Vec<i64>, swaps: &[(usize, usize)]) -> Vec<i64> {
    for &(i, j) in swaps {
        order.swap(i, j);
    }
    order
}

#[test]
fn min_swaps_matches_cycle_count() {
    // The permutation taking [1,2,3,4,5] to [3,1,2,5,4] decomposes into a
    // 3-cycle and a 2-cycle: (3 - 1) + (2 - 1) = 3 swaps.
    let current = vec![1i64, 2, 3, 4, 5];
    let target = vec![3i64, 1, 2, 5, 4];
    let swaps = min_swaps(&current, &target).expect("same multiset");
    assert_eq!(swaps.len(), 3);
    assert_eq!(apply(current, &swaps), target);
}

#[test]
fn min_swaps_identity_is_empty() {
    let order = vec![7i64, 8, 9];
    let swaps = min_swaps(&order, &order).expect("same multiset");
    assert!(swaps.is_empty());
}

#[test]
fn min_swaps_single_transposition() {
    let current = vec![1i64, 2];
    let target = vec![2i64, 1];
    let swaps = min_swaps(&current, &target).expect("same multiset");
    assert_eq!(swaps, vec![(0usize, 1usize)]);
    assert_eq!(apply(current, &swaps), target);
}

#[test]
fn min_swaps_with_duplicates() {
    let current = vec![5i64, 5, 1];
    let target = vec![1i64, 5, 5];
    let swaps = min_swaps(&current, &target).expect("same multiset");
    assert_eq!(apply(current, &swaps), target);
}

#[test]
fn min_swaps_rejects_different_multisets() {
    assert!(min_swaps(&vec![1i64, 2, 3], &vec![1i64, 2, 4]).is_none());
    assert!(min_swaps(&vec![1i64, 2], &vec![1i64, 2, 3]).is_none());
    assert!(min_swaps(&vec![1i64, 1, 2], &vec![1i64, 2, 2]).is_none());
}

#[test]
fn gap_inferred_from_first_pair() {
    let parent = container(1, 0, 310, vec![leaf(2, 0, 100), leaf(3, 105, 100), leaf(4, 210, 100)]);
    assert_eq!(infer_gap(&parent, Axis::Horizontal), 5);
}

#[test]
fn gap_zero_without_a_pair() {
    let parent = container(1, 0, 100, vec![leaf(2, 0, 100)]);
    assert_eq!(infer_gap(&parent, Axis::Horizontal), 0);
}

#[test]
fn faulty_position_detected() {
    // Desired extent 100: the first child's trailing edge reaches only 60,
    // short of the 100 needed, so position 0 is faulty.
    let parent = container(1, 0, 300, vec![leaf(2, 0, 60), leaf(3, 60, 140), leaf(4, 200, 100)]);
    let gap = infer_gap(&parent, Axis::Horizontal);
    assert_eq!(gap, 0);
    assert_eq!(first_faulty(&parent, Axis::Horizontal, 100, gap), Some(0));
}

#[test]
fn no_faulty_position_in_feasible_order() {
    let parent = container(1, 0, 300, vec![leaf(2, 0, 100), leaf(3, 100, 140), leaf(4, 240, 60)]);
    let gap = infer_gap(&parent, Axis::Horizontal);
    assert_eq!(first_faulty(&parent, Axis::Horizontal, 100, gap), None);
}

#[test]
fn largest_sibling_is_first_maximum() {
    let parent = container(
        1,
        0,
        400,
        vec![leaf(2, 0, 60), leaf(3, 60, 140), leaf(4, 200, 140), leaf(5, 340, 60)],
    );
    // Scanning forward from 0, the first child with the largest extent is
    // at index 1.
    assert_eq!(largest_from(&parent, Axis::Horizontal, 0), 1);
    assert_eq!(largest_from(&parent, Axis::Horizontal, 2), 2);
    assert_eq!(largest_from(&parent, Axis::Horizontal, 3), 3);
}
