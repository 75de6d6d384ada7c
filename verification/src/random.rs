//! Drawing the field that every texture starts from.

use vstd::prelude::*;
use crate::error::NoiseError;
use crate::field::{pixel_count, FieldView, NoiseField, MAX_DENOM, RAW_DENOM};
use crate::raster::{convert_to_gray_image, GrayImage};

verus! {

/// `rand::random::<u32>()`: 32 bits from the generator of the calling thread.
/// Which bits they are is a matter of chance, so nothing is said of them.
#[verifier::external_body]
fn random_word() -> u32 {
    rand::random::<u32>()
}

/// The sample that a random word stands for: its upper 24 bits, as a count of
/// steps of `2^-24`. The words being uniform, so are the samples in `[0, 1)`.
pub fn raw_sample(word: u32) -> (sample: i64)
    ensures
        sample == word / 256,
        0 <= sample < RAW_DENOM,
{
    (word / 256) as i64
}

/// `field` is a freshly drawn field of the given size: it counts in steps of
/// `2^-24`, and every sample lies in `[0, 1)`.
pub open spec fn is_raw_field(field: FieldView, width: u32, height: u32) -> bool {
    &&& field.well_formed()
    &&& field.width == width
    &&& field.height == height
    &&& field.denom == RAW_DENOM
    &&& field.in_unit_range()
}

/// Draws a field of independent samples, uniform in `[0, 1)`.
///
/// A width or a height of zero is turned down before anything is drawn.
pub fn white_noise_float(width: u32, height: u32) -> (drawn: Result<NoiseField, NoiseError>)
    requires
        width * height <= MAX_DENOM,
    ensures
        drawn is Err <==> width == 0 || height == 0,
        drawn is Err ==> drawn->Err_0 == NoiseError::InvalidDimensions,
        drawn is Ok ==> is_raw_field(drawn->Ok_0@, width, height),
{
    if width == 0 || height == 0 {
        return Err(NoiseError::InvalidDimensions);
    }
    let count: u64 = pixel_count(width, height);
    let mut samples: Vec<i64> = Vec::new();
    let mut i: u64 = 0;
    while i < count
        invariant
            i <= count,
            samples@.len() == i,
            forall|a: int| 0 <= a < i ==> 0 <= #[trigger] samples@[a] < RAW_DENOM,
        decreases count - i,
    {
        samples.push(raw_sample(random_word()));
        i += 1;
    }
    match NoiseField::from_samples(width, height, RAW_DENOM, samples) {
        Some(field) => Ok(field),
        None => unreached(),
    }
}

/// A texture of white noise: every pixel the gray level of an independent
/// uniform sample, with no shaping at all.
pub fn white_noise(width: u32, height: u32) -> (made: Result<GrayImage, NoiseError>)
    requires
        width * height <= MAX_DENOM,
    ensures
        made is Err <==> width == 0 || height == 0,
        made is Err ==> made->Err_0 == NoiseError::InvalidDimensions,
        made is Ok ==> made->Ok_0@.width == width && made->Ok_0@.height == height
            && made->Ok_0@.pixels.len() == width * height,
{
    match white_noise_float(width, height) {
        Ok(field) => Ok(convert_to_gray_image(&field)),
        Err(e) => Err(e),
    }
}

} // verus!
