use pixel_size::bounds::{index_with, IndexResult, OutOfBounds};
use pixel_size::median::{get_median, Median};
use pixel_size::nonempty::NonEmptyVec;

#[test]
fn median_odd_is_middle_element() {
    let mut arr = NonEmptyVec::new(vec![9usize, 1, 5]).expect("non-empty");
    assert_eq!(get_median(&mut arr), Median::Odd(5));
}

#[test]
fn median_even_is_middle_pair_in_order() {
    let mut arr = NonEmptyVec::new(vec![8usize, 2, 6, 4]).expect("non-empty");
    assert_eq!(get_median(&mut arr), Median::Even(4, 6));
}

#[test]
fn median_matches_full_sort() {
    let data: Vec<usize> = vec![12, 3, 3, 27, 8, 19, 5, 5, 41];
    for take in 1..=data.len() {
        let head: Vec<usize> = data[..take].to_vec();
        let mut sorted = head.clone();
        sorted.sort();
        let mut arr = NonEmptyVec::new(head).expect("non-empty");
        let med = get_median(&mut arr);
        if take % 2 == 1 {
            assert_eq!(med, Median::Odd(sorted[take / 2]));
        } else {
            assert_eq!(med, Median::Even(sorted[take / 2 - 1], sorted[take / 2]));
        }
    }
}

#[test]
fn median_reduce_and_sum_and_get() {
    assert_eq!(Median::Odd(7usize).reduce(|a, b| a + b), 7);
    assert_eq!(Median::Even(3usize, 5).reduce(|a, b| a * b), 15);
    assert_eq!(Median::Odd(7usize).sum(), 7);
    assert_eq!(Median::Even(3usize, 5).sum(), 8);
    assert_eq!(Median::Odd(7usize).get(), 7);
    assert_eq!(Median::Even(3usize, 6).get(), 4);
}

#[test]
fn median_reduce_with_curries() {
    let g = Median::reduce_with(|a: usize, b: usize| a + b);
    assert_eq!(g(Median::Even(4, 6)), 10);
    let h = Median::reduce_with(|a: usize, b: usize| a + b);
    assert_eq!(h(Median::Odd(9)), 9);
}

#[test]
fn nonempty_rejects_empty() {
    let empty: Vec<usize> = vec![];
    assert!(NonEmptyVec::new(empty).is_none());
}

#[test]
fn nonempty_keeps_elements() {
    let ne = NonEmptyVec::new(vec![4usize, 2]).expect("non-empty");
    assert_eq!(ne.len(), 2);
    assert_eq!(*ne.index(0), 4);
    assert_eq!(*ne.index(1), 2);
    assert_eq!(ne.into_vec(), vec![4, 2]);
}

#[test]
fn index_result_classifies() {
    assert_eq!(IndexResult::new(0, 0, || 1u32), IndexResult::Empty);
    assert_eq!(IndexResult::new(2, 3, || 1u32), IndexResult::InRange(1));
    assert_eq!(IndexResult::new(3, 3, || 1u32), IndexResult::OutOfRange);
    assert_eq!(index_with(1, 2, || 5u32), IndexResult::InRange(5));
}

#[test]
fn index_result_into_opt_res() {
    assert_eq!(IndexResult::<u32>::Empty.into_opt_res(), None);
    assert_eq!(IndexResult::InRange(7u32).into_opt_res(), Some(Ok(7)));
    assert_eq!(IndexResult::<u32>::OutOfRange.into_opt_res(), Some(Err(OutOfBounds)));
}

#[test]
fn index_result_unwraps() {
    assert_eq!(IndexResult::InRange(7u32).unwrap(), Ok(7));
    assert_eq!(IndexResult::<u32>::OutOfRange.unwrap(), Err(OutOfBounds));
    assert_eq!(IndexResult::InRange(7u32).unwrap2(), 7);
}
