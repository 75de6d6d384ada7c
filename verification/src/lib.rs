//! Procedural noise textures with a chosen spectral character: white, red
//! (low frequencies), blue (high frequencies), green (a band of middle
//! frequencies) and purple (everything but such a band).
//!
//! A texture starts as a field of independent uniform samples. Shaping blurs
//! it, combines the blurred copies, and normalizes the outcome, round after
//! round; at the end every sample becomes a gray level.

pub mod error;
pub mod field;
pub mod normalize;
pub mod random;
pub mod ranking;
pub mod raster;
pub mod shaping;

pub use crate::error::NoiseError;
pub use crate::field::NoiseField;
pub use crate::normalize::normalize_histogram;
pub use crate::random::{white_noise, white_noise_float};
pub use crate::raster::{convert_to_gray_image, GrayImage};
pub use crate::shaping::{
    blue_noise, green_noise, purple_noise, red_noise, Request, Shaping, Strategy,
};
