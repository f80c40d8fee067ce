//! Inference of the pixel size of upscaled pixel-art images.
//!
//! The crate estimates the side length, in source pixels, of one logical
//! pixel of a pixel-art image: it derives an edge-strength profile per
//! spatial axis, extracts peak positions, takes the median of the
//! inter-peak spacings through a verified selection engine, reconciles
//! ambiguous medians against the image dimensions, and combines the two
//! axis estimates through their greatest common divisor.

pub mod bounds;
pub mod estimate;
pub mod grid;
pub mod median;
pub mod nonempty;
pub mod order;
pub mod peaks;
pub mod select;
