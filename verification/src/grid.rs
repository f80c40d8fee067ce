//! The decoded image and its squared edge-energy map.
//!
//! An image is held as one `u8` sample per channel and pixel, in
//! channel-major order.  The first stage of edge detection is exact
//! integer arithmetic: for every pair of adjacent columns (or rows),
//! the squared sample differences are summed over the three channels.
//! The later stages — square root and summing along the orthogonal
//! axis — only scale the signal and are left to the caller, which
//! hands the finished signal back as order-preserving keys.

use vstd::prelude::*;

verus! {

/// A spatial axis of the image.
#[derive(Debug, Clone, Copy, PartialEq, Eq)]
pub enum Axis {
    /// Along the width: differences between adjacent columns.
    Horizontal,
    /// Along the height: differences between adjacent rows.
    Vertical,
}

/// A fully decoded three-channel image: `u8` samples in channel-major
/// order (channel, then row, then column).
#[derive(Debug, Clone)]
pub struct RgbBuffer {
    samples: Vec<u8>,
    height: usize,
    width: usize,
}

impl View for RgbBuffer {
    type V = Seq<u8>;

    closed spec fn view(&self) -> Seq<u8> {
        self.samples@
    }
}

/// The square of a difference.
pub open spec fn sq(d: int) -> int {
    d * d
}

proof fn lemma_flat_index_bound(c: int, r: int, col: int, h: int, w: int)
    requires
        0 <= c < 3,
        0 <= r < h,
        0 <= col < w,
        1 <= h,
        1 <= w,
    ensures
        0 <= c * (h * w),
        0 <= r * w,
        c * (h * w) + r * w + col < 3 * h * w,
        h * w <= 3 * h * w,
{
    assert(0 <= c * (h * w) && 0 <= r * w && c * (h * w) + r * w + col < 3 * h * w && h * w <= 3
        * h * w) by (nonlinear_arith)
        requires
            0 <= c < 3,
            0 <= r < h,
            0 <= col < w,
            1 <= h,
            1 <= w,
    ;
}

impl RgbBuffer {
    /// The image height in pixels.
    pub closed spec fn spec_height(&self) -> usize {
        self.height
    }

    /// The image width in pixels.
    pub closed spec fn spec_width(&self) -> usize {
        self.width
    }

    /// Well-formedness: positive dimensions and exactly one sample per
    /// channel and pixel.
    pub open spec fn wf(&self) -> bool {
        &&& self.spec_height() >= 1
        &&& self.spec_width() >= 1
        &&& self@.len() == 3 * self.spec_height() * self.spec_width()
    }

    /// The sample of channel `c` at row `r`, column `col`.
    pub open spec fn sample(&self, c: int, r: int, col: int) -> u8 {
        self@[c * (self.spec_height() * self.spec_width()) + r * self.spec_width() + col]
    }

    /// Wraps a channel-major sample vector of shape
    /// `3 x height x width`; fails exactly when a dimension is zero or
    /// the sample count does not match.
    pub fn new(samples: Vec<u8>, height: usize, width: usize) -> (r: Option<RgbBuffer>)
        ensures
            (height >= 1 && width >= 1 && samples@.len() == 3 * height * width) <==> r is Some,
            r matches Some(b) ==> b.wf() && b.spec_height() == height && b.spec_width() == width
                && b@ == samples@,
    {
        let n = samples.len();
        if height == 0 || width == 0 {
            return None;
        }
        let hw = match height.checked_mul(width) {
            Some(x) => x,
            None => {
                proof {
                    assert(3 * height * width > usize::MAX) by (nonlinear_arith)
                        requires
                            height * width > usize::MAX,
                            height >= 1,
                            width >= 1,
                    ;
                }
                return None;
            },
        };
        let chw = match hw.checked_mul(3) {
            Some(x) => x,
            None => {
                proof {
                    assert(hw * 3 == 3 * height * width) by (nonlinear_arith)
                        requires
                            hw == height * width,
                    ;
                }
                return None;
            },
        };
        proof {
            assert(chw == 3 * height * width) by (nonlinear_arith)
                requires
                    hw == height * width,
                    chw == hw * 3,
            ;
        }
        if n != chw {
            return None;
        }
        Some(RgbBuffer { samples, height, width })
    }

    /// The height in pixels.
    pub fn height(&self) -> (r: usize)
        ensures
            r == self.spec_height(),
    {
        self.height
    }

    /// The width in pixels.
    pub fn width(&self) -> (r: usize)
        ensures
            r == self.spec_width(),
    {
        self.width
    }

    /// The sample of channel `c` at row `r`, column `col`.
    pub fn at(&self, c: usize, r: usize, col: usize) -> (s: u8)
        requires
            self.wf(),
            c < 3,
            r < self.spec_height(),
            col < self.spec_width(),
        ensures
            s == self.sample(c as int, r as int, col as int),
    {
        proof {
            lemma_flat_index_bound(
                c as int,
                r as int,
                col as int,
                self.spec_height() as int,
                self.spec_width() as int,
            );
        }
        // the sample count, a usize, bounds the flat index below
        // usize::MAX
        let _total = self.samples.len();
        let hw = self.height * self.width;
        self.samples[c * hw + r * self.width + col]
    }

    /// The squared edge energy between position `(r, c)` and its
    /// successor along `axis`: the squared sample differences summed
    /// over the three channels.
    pub open spec fn spec_energy(&self, axis: Axis, r: int, c: int) -> int {
        match axis {
            Axis::Horizontal => sq(self.sample(0, r, c + 1) - self.sample(0, r, c)) + sq(
                self.sample(1, r, c + 1) - self.sample(1, r, c),
            ) + sq(self.sample(2, r, c + 1) - self.sample(2, r, c)),
            Axis::Vertical => sq(self.sample(0, r + 1, c) - self.sample(0, r, c)) + sq(
                self.sample(1, r + 1, c) - self.sample(1, r, c),
            ) + sq(self.sample(2, r + 1, c) - self.sample(2, r, c)),
        }
    }

    /// The squared edge energy of one channel between `(r, c)` and its
    /// successor along `axis`, as exact integer arithmetic.
    fn channel_energy(&self, ch: usize, axis: Axis, r: usize, c: usize) -> (e: u32)
        requires
            self.wf(),
            ch < 3,
            matches!(axis, Axis::Horizontal) ==> r < self.spec_height() && c + 1
                < self.spec_width(),
            matches!(axis, Axis::Vertical) ==> r + 1 < self.spec_height() && c
                < self.spec_width(),
        ensures
            matches!(axis, Axis::Horizontal) ==> e == sq(
                self.sample(ch as int, r as int, c + 1) - self.sample(ch as int, r as int, c as int),
            ),
            matches!(axis, Axis::Vertical) ==> e == sq(
                self.sample(ch as int, r + 1, c as int) - self.sample(ch as int, r as int, c as int),
            ),
            e <= 65025,
    {
        let (a, b): (u8, u8) = match axis {
            Axis::Horizontal => (self.at(ch, r, c + 1), self.at(ch, r, c)),
            Axis::Vertical => (self.at(ch, r + 1, c), self.at(ch, r, c)),
        };
        let d: u32 = if a >= b {
            (a - b) as u32
        } else {
            (b - a) as u32
        };
        proof {
            assert(d * d == sq(a - b) && d * d <= 65025) by (nonlinear_arith)
                requires
                    d == if a >= b {
                        a - b
                    } else {
                        b - a
                    },
                    0 <= a <= 255,
                    0 <= b <= 255,
            ;
        }
        d * d
    }

    /// The squared edge-energy map along `axis`: entry `[r][c]` is
    /// [`RgbBuffer::spec_energy`] at `(r, c)`.  Along the width the map
    /// has one column less than the image, along the height one row
    /// less.
    pub fn squared_edge_map(&self, axis: Axis) -> (m: Vec<Vec<u32>>)
        requires
            self.wf(),
        ensures
            matches!(axis, Axis::Horizontal) ==> m@.len() == self.spec_height() && (forall|r: int|
                0 <= r < m@.len() ==> #[trigger] m@[r]@.len() == self.spec_width() - 1),
            matches!(axis, Axis::Vertical) ==> m@.len() == self.spec_height() - 1 && (forall|
                r: int,
            |
                0 <= r < m@.len() ==> #[trigger] m@[r]@.len() == self.spec_width()),
            forall|r: int, c: int|
                0 <= r < m@.len() && 0 <= c < m@[r]@.len() ==> #[trigger] m@[r]@[c]
                    == self.spec_energy(axis, r, c),
    {
        let rows: usize = match axis {
            Axis::Horizontal => self.height(),
            Axis::Vertical => self.height() - 1,
        };
        let cols: usize = match axis {
            Axis::Horizontal => self.width() - 1,
            Axis::Vertical => self.width(),
        };
        let mut m: Vec<Vec<u32>> = Vec::new();
        let mut r: usize = 0;
        while r < rows
            invariant
                self.wf(),
                r <= rows,
                matches!(axis, Axis::Horizontal) ==> rows == self.spec_height() && cols
                    == self.spec_width() - 1,
                matches!(axis, Axis::Vertical) ==> rows == self.spec_height() - 1 && cols
                    == self.spec_width(),
                m@.len() == r,
                forall|i: int| 0 <= i < r ==> #[trigger] m@[i]@.len() == cols,
                forall|i: int, c: int|
                    0 <= i < r && 0 <= c < cols ==> #[trigger] m@[i]@[c] == self.spec_energy(
                        axis,
                        i,
                        c,
                    ),
            decreases rows - r,
        {
            let mut row: Vec<u32> = Vec::new();
            let mut c: usize = 0;
            while c < cols
                invariant
                    self.wf(),
                    r < rows,
                    c <= cols,
                    matches!(axis, Axis::Horizontal) ==> rows == self.spec_height() && cols
                        == self.spec_width() - 1,
                    matches!(axis, Axis::Vertical) ==> rows == self.spec_height() - 1 && cols
                        == self.spec_width(),
                    row@.len() == c,
                    forall|j: int|
                        0 <= j < c ==> #[trigger] row@[j] == self.spec_energy(axis, r as int, j),
                decreases cols - c,
            {
                let e0 = self.channel_energy(0, axis, r, c);
                let e1 = self.channel_energy(1, axis, r, c);
                let e2 = self.channel_energy(2, axis, r, c);
                row.push(e0 + e1 + e2);
                c += 1;
            }
            m.push(row);
            r += 1;
        }
        m
    }
}

} // verus!
