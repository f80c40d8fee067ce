use pixel_size::bounds::OutOfBounds;
use pixel_size::select::{select_checked, select_unchecked, PivotPolicy};

fn quickselect(arr: &mut Vec<usize>, k: usize) -> usize {
    // the deterministic worst-case pivot, to exercise the engine hardest
    select_checked(arr, k, PivotPolicy::LastIndex).expect("rank within bounds")
}

#[test]
fn test_quickselect() {
    let mut arr: Vec<usize> = vec![3, 2, 1, 5, 6, 4];
    assert_eq!(quickselect(&mut arr, 0), 1);
    assert_eq!(quickselect(&mut arr, 1), 2);
    assert_eq!(quickselect(&mut arr, 2), 3);
    assert_eq!(quickselect(&mut arr, 3), 4);
    assert_eq!(quickselect(&mut arr, 4), 5);
    assert_eq!(quickselect(&mut arr, 5), 6);
}

#[test]
fn test_quickselect_duplicates() {
    let mut arr: Vec<usize> = vec![3, 3, 3, 3, 3];
    assert_eq!(quickselect(&mut arr, 0), 3);
    assert_eq!(quickselect(&mut arr, 1), 3);
    assert_eq!(quickselect(&mut arr, 2), 3);
    assert_eq!(quickselect(&mut arr, 3), 3);
    assert_eq!(quickselect(&mut arr, 4), 3);
}

#[test]
fn test_quickselect_large() {
    let mut arr: Vec<usize> = vec![9, 8, 7, 6, 5, 4, 3, 2, 1];
    assert_eq!(quickselect(&mut arr, 0), 1);
    assert_eq!(quickselect(&mut arr, 1), 2);
    assert_eq!(quickselect(&mut arr, 2), 3);
    assert_eq!(quickselect(&mut arr, 3), 4);
    assert_eq!(quickselect(&mut arr, 4), 5);
    assert_eq!(quickselect(&mut arr, 5), 6);
    assert_eq!(quickselect(&mut arr, 6), 7);
    assert_eq!(quickselect(&mut arr, 7), 8);
    assert_eq!(quickselect(&mut arr, 8), 9);
}

#[test]
fn select_checked_rejects_rank_at_length() {
    let mut arr: Vec<usize> = vec![3, 1, 2];
    assert_eq!(select_checked(&mut arr, 3, PivotPolicy::LastIndex), Err(OutOfBounds));
    assert_eq!(select_checked(&mut arr, 100, PivotPolicy::MedianOfThree), Err(OutOfBounds));
}

#[test]
fn select_checked_rejects_empty() {
    let mut arr: Vec<usize> = vec![];
    assert_eq!(select_checked(&mut arr, 0, PivotPolicy::MedianOfThree), Err(OutOfBounds));
}

#[test]
fn select_single_element() {
    let mut arr: Vec<usize> = vec![7];
    assert_eq!(select_checked(&mut arr, 0, PivotPolicy::MedianOfThree), Ok(7));
    assert_eq!(select_unchecked(&mut arr, 0, PivotPolicy::LastIndex), 7);
}

#[test]
fn select_policies_agree() {
    let mut a: Vec<usize> = vec![10, 7, 7, 42, 0, 3, 7];
    let mut b = a.clone();
    for k in 0..a.len() {
        assert_eq!(
            select_checked(&mut a, k, PivotPolicy::MedianOfThree),
            select_checked(&mut b, k, PivotPolicy::LastIndex)
        );
    }
}

#[test]
fn select_unchecked_partitions_in_place() {
    let mut arr: Vec<usize> = vec![5, 9, 1, 8, 2];
    let r = select_unchecked(&mut arr, 2, PivotPolicy::MedianOfThree);
    assert_eq!(r, 5);
    assert_eq!(arr[2], 5);
    assert!(arr[0] <= 5 && arr[1] <= 5);
    assert!(arr[3] >= 5 && arr[4] >= 5);
    let mut sorted = arr.clone();
    sorted.sort();
    assert_eq!(sorted, vec![1, 2, 5, 8, 9]);
}
