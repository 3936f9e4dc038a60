//! Rare-bin patch descriptors for matching image points.
//!
//! A point of a grayscale image is described by an 8x8 grid of intensities
//! sampled around it. Many such patches train a [`PatchModel`]; quantising
//! the model gives a [`PatchDescriptor`] that marks, per grid location, the
//! intensity bins that training hardly ever saw. The [`discrepancy`] of two
//! descriptors counts the places where both mark the same bin.

pub mod bits;
pub mod descriptor;
pub mod model;
pub mod sampler;

pub use crate::bits::{count_bits, set_bit};
pub use crate::descriptor::{discrepancy, PatchDescriptor};
pub use crate::model::{bin, PatchModel, PointHist};
pub use crate::sampler::{sample_patch, GrayPixels};
