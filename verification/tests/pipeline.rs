use pixel_size::estimate::{
    estimate_axis, estimate_from_signals, final_pixel_size, gcd, reconcile, spacings,
    EstimateError,
};
use pixel_size::grid::{Axis, RgbBuffer};
use pixel_size::median::Median;
use pixel_size::peaks::{diff, find_peaks_indices, BoundaryPolicy};
use std::ops::Sub;

struct Diff<I: Iterator>
where
    I::Item: Sub + Copy,
{
    it: I,
    prev: Option<I::Item>,
}

impl<I> Diff<I>
where
    I: Iterator,
    I::Item: Sub + Copy,
{
    fn new(it: I) -> Self {
        Self { it, prev: None }
    }
}

impl<I> Iterator for Diff<I>
where
    I: Iterator,
    I::Item: Sub + Copy,
{
    type Item = <I::Item as Sub>::Output;

    fn next(&mut self) -> Option<Self::Item> {
        let prev = self.prev.take().or_else(|| self.it.next())?;
        let next = self.it.next()?;
        let diff = prev - next;
        self.prev = Some(next);
        Some(diff)
    }
}

#[test]
fn diff_simple() {
    assert_eq!(
        Diff::new([5, 1, 2, 7].into_iter()).collect::<Vec<_>>(),
        vec![4, -1, -5]
    );
}

#[test]
fn range_over_bounds() {
    let a = [0, 1, 2];
    let s = a.as_slice();

    assert_eq!(s.len(), 3);

    let x = &s[3..];
    assert_eq!(x.len(), 0);

    let x = &s[..0];
    assert_eq!(x.len(), 0);
}

#[test]
fn diff_of_positions() {
    assert_eq!(diff(&vec![0, 3, 7]), vec![3, 4]);
    assert_eq!(diff(&vec![5]), Vec::<usize>::new());
    assert_eq!(diff(&Vec::new()), Vec::<usize>::new());
}

#[test]
fn peaks_with_and_without_sentinels() {
    let signal: Vec<u32> = vec![0, 5, 0, 7, 0];
    assert_eq!(
        find_peaks_indices(&signal, BoundaryPolicy::IncludeSentinels),
        vec![0, 1, 3, 5]
    );
    assert_eq!(
        find_peaks_indices(&signal, BoundaryPolicy::ExcludeSentinels),
        vec![1, 3]
    );
}

#[test]
fn spacings_need_two_peaks() {
    assert_eq!(
        spacings(&vec![4]).map(|s| s.into_vec()),
        Err(EstimateError::EmptySpacingSet)
    );
    assert_eq!(spacings(&vec![0, 3, 7]).map(|s| s.into_vec()), Ok(vec![3, 4]));
}

#[test]
fn reconcile_even_sum_takes_mean() {
    // middle pair (4, 6): the even sum short-circuits the divisibility
    // branch, whatever the dimension offers
    assert_eq!(reconcile(Median::Even(4, 6), 18), 5);
}

#[test]
fn reconcile_odd_sum_prefers_divisible_larger() {
    // middle pair (3, 4), dimension 16: 16 % 4 == 0, so 4 wins
    assert_eq!(reconcile(Median::Even(3, 4), 16), 4);
}

#[test]
fn reconcile_odd_sum_falls_back_to_smaller() {
    // middle pair (3, 4), dimension 17: divisible by neither, so 3
    assert_eq!(reconcile(Median::Even(3, 4), 17), 3);
}

#[test]
fn reconcile_odd_median_stands() {
    assert_eq!(reconcile(Median::Odd(6), 17), 6);
}

#[test]
fn gcd_combination() {
    assert_eq!(gcd(6, 4), 2);
    assert_eq!(gcd(4, 6), 2);
    assert_eq!(gcd(8, 8), 8);
    assert_eq!(gcd(7, 0), 7);
    // one axis estimating a multiple of the true size collapses back
    assert_eq!(gcd(4, 12), 4);
}

#[test]
fn indivisible_dimension_is_reported() {
    // a noisy estimate of 3 on a 10-wide image must fail, not truncate
    assert_eq!(
        final_pixel_size(3, 3, 10, 9),
        Err(EstimateError::IndivisibleDimension)
    );
    assert_eq!(final_pixel_size(6, 4, 10, 8), Ok(2));
}

#[test]
fn estimate_axis_flat_signal() {
    // no interior peak: the sentinels alone carry the estimate
    let flat: Vec<u32> = vec![1, 1, 1];
    assert_eq!(
        estimate_axis(&flat, 9, BoundaryPolicy::IncludeSentinels),
        Ok(3)
    );
    assert_eq!(
        estimate_axis(&flat, 9, BoundaryPolicy::ExcludeSentinels),
        Err(EstimateError::EmptySpacingSet)
    );
}

fn checkerboard(width: usize, height: usize, period: usize) -> RgbBuffer {
    let mut samples = vec![0u8; 3 * height * width];
    for ch in 0..3 {
        for r in 0..height {
            for c in 0..width {
                let dark = ((r / period) + (c / period)) % 2 == 0;
                samples[ch * height * width + r * width + c] = if dark { 0 } else { 255 };
            }
        }
    }
    RgbBuffer::new(samples, height, width).expect("consistent dimensions")
}

fn signal_from_map(map: &[Vec<u32>], along_columns: bool) -> Vec<u32> {
    // square root and orthogonal sum, then order-preserving bit keys:
    // a non-negative f32 compares exactly as its bit pattern does
    let rows = map.len();
    let cols = if rows == 0 { 0 } else { map[0].len() };
    let positions = if along_columns { cols } else { rows };
    let mut signal = Vec::with_capacity(positions);
    for p in 0..positions {
        let mut total = 0f32;
        if along_columns {
            for r in 0..rows {
                total += (map[r][p] as f32).sqrt();
            }
        } else {
            for c in 0..cols {
                total += (map[p][c] as f32).sqrt();
            }
        }
        signal.push(total.to_bits());
    }
    signal
}

#[test]
fn energy_map_formula() {
    // one row, two columns; per channel: (10,4), (0,255), (7,7)
    let samples = vec![10u8, 4, 0, 255, 7, 7];
    let img = RgbBuffer::new(samples, 1, 2).expect("consistent dimensions");
    let map = img.squared_edge_map(Axis::Horizontal);
    assert_eq!(map.len(), 1);
    assert_eq!(map[0], vec![36 + 65025 + 0]);
    assert_eq!(img.at(1, 0, 1), 255);
}

#[test]
fn buffer_rejects_mismatched_dimensions() {
    assert!(RgbBuffer::new(vec![0u8; 5], 1, 2).is_none());
    assert!(RgbBuffer::new(vec![0u8; 6], 0, 2).is_none());
    assert!(RgbBuffer::new(vec![0u8; 6], 1, 2).is_some());
}

#[test]
fn checkerboard_end_to_end() {
    // an 8 x 8 checkerboard with true period 4 in both axes
    let img = checkerboard(8, 8, 4);
    let h_map = img.squared_edge_map(Axis::Horizontal);
    let v_map = img.squared_edge_map(Axis::Vertical);
    let h_signal = signal_from_map(&h_map, true);
    let v_signal = signal_from_map(&v_map, false);
    assert_eq!(h_signal.len(), 7);
    assert_eq!(v_signal.len(), 7);
    let size = estimate_from_signals(
        &h_signal,
        &v_signal,
        img.width(),
        img.height(),
        BoundaryPolicy::IncludeSentinels,
    );
    assert_eq!(size, Ok(4));
    assert!(img.width() % 4 == 0 && img.height() % 4 == 0);
}
