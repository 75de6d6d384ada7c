//! From samples to the bytes of a grayscale image.
//!
//! A sample `v` becomes the gray level `round(255 * v)`, kept within 0 and 255.
//! The image itself is an `image::GrayImage`, filled here and read through the
//! methods of [`GrayImage`].

use vstd::prelude::*;
use crate::field::{FieldView, NoiseField};

verus! {

/// The gray level of the sample `sample / denom`: 255 times the sample, rounded
/// to the nearest whole number, halves upwards; 0 for a sample at or below
/// zero, 255 for a sample of one or more.
pub open spec fn quantized(sample: int, denom: int) -> int {
    if sample <= 0 {
        0
    } else if sample >= denom {
        255
    } else {
        (510 * sample + denom) / (2 * denom)
    }
}

/// The gray levels of a field, pixel by pixel.
pub open spec fn quantized_pixels(field: FieldView) -> Seq<u8> {
    Seq::new(field.samples.len(), |i: int| quantized(field.samples[i], field.denom) as u8)
}

/// Every gray level lies between 0 and 255.
pub proof fn lemma_quantized_in_range(sample: int, denom: int)
    ensures
        0 <= quantized(sample, denom) <= 255,
{
    if 0 < sample < denom {
        lemma_rounded_level(sample, denom);
    }
}

/// Inside `(0, 1)` the gray level is the whole number nearest to 255 times the
/// sample: twice their distance, counted in steps of one over the denominator,
/// is at most the denominator.
pub proof fn lemma_rounded_level(sample: int, denom: int)
    requires
        0 < sample < denom,
    ensures
        0 <= quantized(sample, denom) <= 255,
        2 * denom * quantized(sample, denom) - denom <= 510 * sample,
        510 * sample < 2 * denom * quantized(sample, denom) + denom,
{
    let top = 510 * sample + denom;
    let q = top / (2 * denom);
    assert(0 <= q <= 255 && 2 * denom * q <= top < 2 * denom * q + 2 * denom)
        by (nonlinear_arith)
        requires
            0 < sample < denom,
            top == 510 * sample + denom,
            q == top / (2 * denom),
    ;
}

/// The gray level of one sample.
pub fn quantize_sample(sample: i64, denom: u64) -> (level: u8)
    ensures
        level == quantized(sample as int, denom as int),
{
    if sample <= 0 {
        0
    } else if sample as u64 >= denom {
        255
    } else {
        proof {
            lemma_rounded_level(sample as int, denom as int);
        }
        let s: u128 = sample as u128;
        let d: u128 = denom as u128;
        ((510 * s + d) / (2 * d)) as u8
    }
}

/// The gray levels of a field, row after row from the top left.
pub fn quantize(field: &NoiseField) -> (levels: Vec<u8>)
    ensures
        levels@ == quantized_pixels(field@),
{
    let samples = field.samples();
    let denom: u64 = field.denom();
    let n: usize = samples.len();
    let mut levels: Vec<u8> = Vec::new();
    let mut i: usize = 0;
    while i < n
        invariant
            i <= n,
            n == samples@.len(),
            denom == field@.denom,
            crate::field::sample_values(samples@) == field@.samples,
            levels@.len() == i,
            forall|a: int| 0 <= a < i ==> #[trigger] levels@[a] == quantized_pixels(field@)[a],
        decreases n - i,
    {
        proof {
            assert(field@.samples[i as int] == samples@[i as int]);
            lemma_quantized_in_range(samples@[i as int] as int, denom as int);
        }
        levels.push(quantize_sample(samples[i], denom));
        i += 1;
    }
    proof {
        assert(levels@ =~= quantized_pixels(field@));
    }
    levels
}

/// An 8-bit grayscale image: an `image::GrayImage`, held as the `image` crate
/// made it. Nothing in this library looks inside; it is read through the two
/// names below.
#[verifier::external_body]
pub struct GrayImage {
    inner: image::GrayImage,
}

/// The bytes of an image, one for each pixel, row after row from the top left.
pub uninterp spec fn raster_pixels(img: GrayImage) -> Seq<u8>;

/// The width and the height of an image, in pixels.
pub uninterp spec fn raster_size(img: GrayImage) -> (u32, u32);

/// What an image holds, as mathematical values.
pub struct RasterView {
    pub width: int,
    pub height: int,
    /// One byte for each pixel, row after row from the top left.
    pub pixels: Seq<u8>,
}

impl View for GrayImage {
    type V = RasterView;

    open spec fn view(&self) -> RasterView {
        RasterView {
            width: raster_size(*self).0 as int,
            height: raster_size(*self).1 as int,
            pixels: raster_pixels(*self),
        }
    }
}

/// `image::ImageBuffer::from_raw` on a vector of exactly `width * height`
/// bytes. The crate takes a vector that is long enough, keeps it untouched as
/// the pixel data and records the two dimensions.
#[verifier::external_body]
fn raster_from_raw(width: u32, height: u32, bytes: Vec<u8>) -> (img: Option<GrayImage>)
    requires
        bytes@.len() == width * height,
    ensures
        img is Some,
        raster_pixels(img->0) == bytes@,
        raster_size(img->0) == (width, height),
{
    match image::GrayImage::from_raw(width, height, bytes) {
        Some(inner) => Some(GrayImage { inner }),
        None => None,
    }
}

/// `image::ImageBuffer::dimensions`: the width and the height that the image
/// was made with. An image holds one byte for each of its pixels.
#[verifier::external_body]
fn raster_dimensions(img: &GrayImage) -> (size: (u32, u32))
    ensures
        size == raster_size(*img),
        raster_pixels(*img).len() == size.0 * size.1,
{
    img.inner.dimensions()
}

/// `image::ImageBuffer::get_pixel` inside the image: the byte of the pixel in
/// column `x` of row `y`, which stands at `y * width + x`.
#[verifier::external_body]
fn raster_get_pixel(img: &GrayImage, x: u32, y: u32) -> (level: u8)
    requires
        x < raster_size(*img).0,
        y < raster_size(*img).1,
    ensures
        level == raster_pixels(*img)[y * raster_size(*img).0 + x],
{
    img.inner.get_pixel(x, y).0[0]
}

/// `image::ImageBuffer::into_raw`: the pixel data, given up by the image.
#[verifier::external_body]
fn raster_into_raw(img: GrayImage) -> (bytes: Vec<u8>)
    ensures
        bytes@ == raster_pixels(img),
{
    img.inner.into_raw()
}

impl GrayImage {
    /// The width and the height in pixels. There is one byte for each pixel.
    pub fn dimensions(&self) -> (size: (u32, u32))
        ensures
            size.0 == self@.width,
            size.1 == self@.height,
            self@.pixels.len() == self@.width * self@.height,
    {
        raster_dimensions(self)
    }

    /// The width in pixels.
    pub fn width(&self) -> (w: u32)
        ensures
            w == self@.width,
    {
        raster_dimensions(self).0
    }

    /// The height in pixels.
    pub fn height(&self) -> (h: u32)
        ensures
            h == self@.height,
    {
        raster_dimensions(self).1
    }

    /// The gray level in column `x` of row `y`, counted from the top left;
    /// nothing outside the image.
    pub fn get_pixel(&self, x: u32, y: u32) -> (level: Option<u8>)
        ensures
            level is Some <==> x < self@.width && y < self@.height,
            level is Some ==> level->0 == self@.pixels[y * self@.width + x],
    {
        let size = raster_dimensions(self);
        if x < size.0 && y < size.1 {
            Some(raster_get_pixel(self, x, y))
        } else {
            None
        }
    }

    /// The gray levels, row after row from the top left.
    pub fn into_raw(self) -> (bytes: Vec<u8>)
        ensures
            bytes@ == self@.pixels,
    {
        raster_into_raw(self)
    }
}

/// The image of a field: as wide and as high, each pixel the gray level of its
/// sample.
pub fn convert_to_gray_image(field: &NoiseField) -> (img: GrayImage)
    ensures
        img@.width == field@.width,
        img@.height == field@.height,
        img@.pixels == quantized_pixels(field@),
{
    proof {
        use_type_invariant(field);
        field.lemma_well_formed();
    }
    let levels = quantize(field);
    match raster_from_raw(field.width(), field.height(), levels) {
        Some(img) => img,
        None => unreached(),
    }
}

} // verus!
