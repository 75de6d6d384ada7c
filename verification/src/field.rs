//! A grid of samples, the working state of every generator.
//!
//! A sample is a fraction: an integer numerator over a denominator that the
//! whole field shares. A freshly drawn field counts in steps of `1 / 2^24`; a
//! normalized field of `n` pixels counts in steps of `1 / n`. Nothing keeps a
//! sample inside `[0, 1)`: sums and differences of fields may leave it.

use vstd::prelude::*;
use crate::ranking::rank_values;

verus! {

/// The largest denominator of a field, and the largest number of pixels:
/// `2^62`. No memory holds that many samples, and below it the differences of
/// fields, taken over a common denominator, fit in 128 bits.
pub const MAX_DENOM: u64 = 0x4000_0000_0000_0000;

/// The denominator of a freshly drawn field: samples count in steps of `2^-24`.
pub const RAW_DENOM: u64 = 0x100_0000;

/// What a field holds, as mathematical values.
pub struct FieldView {
    pub width: int,
    pub height: int,
    pub denom: int,
    /// The numerators, row after row from the top left.
    pub samples: Seq<int>,
}

impl FieldView {
    /// A grid with at least one pixel, one sample for each, and a denominator
    /// within bounds.
    pub open spec fn well_formed(self) -> bool {
        &&& 0 < self.width <= u32::MAX
        &&& 0 < self.height <= u32::MAX
        &&& self.samples.len() == self.width * self.height
        &&& self.samples.len() <= MAX_DENOM
        &&& 0 < self.denom <= MAX_DENOM
        &&& forall|i: int|
            0 <= i < self.samples.len() ==> i64::MIN <= #[trigger] self.samples[i] <= i64::MAX
    }

    /// Every sample lies in `[0, 1)`.
    pub open spec fn in_unit_range(self) -> bool {
        forall|i: int| 0 <= i < self.samples.len() ==> 0 <= #[trigger] self.samples[i] < self.denom
    }

    /// Both grids have the same width and height.
    pub open spec fn same_size(self, other: FieldView) -> bool {
        self.width == other.width && self.height == other.height
    }
}

/// The numerators as mathematical integers.
pub open spec fn sample_values(samples: Seq<i64>) -> Seq<int> {
    samples.map_values(|s: i64| s as int)
}

/// Whether these parts make a field.
pub open spec fn valid_parts(width: u32, height: u32, denom: u64, samples: Seq<i64>) -> bool {
    &&& width > 0
    &&& height > 0
    &&& samples.len() == width * height
    &&& samples.len() <= MAX_DENOM
    &&& 0 < denom <= MAX_DENOM
}

/// A width by height grid of samples.
pub struct NoiseField {
    width: u32,
    height: u32,
    denom: u64,
    samples: Vec<i64>,
}

impl View for NoiseField {
    type V = FieldView;

    closed spec fn view(&self) -> FieldView {
        FieldView {
            width: self.width as int,
            height: self.height as int,
            denom: self.denom as int,
            samples: sample_values(self.samples@),
        }
    }
}

impl NoiseField {
    /// What every field keeps to: its parts fit together.
    #[verifier::type_invariant]
    pub closed spec fn holds_a_grid(&self) -> bool {
        valid_parts(self.width, self.height, self.denom, self.samples@)
    }

    /// Every field that a program holds is well formed.
    pub proof fn lemma_well_formed(&self)
        requires
            self.holds_a_grid(),
        ensures
            self@.well_formed(),
    {
    }

    /// Makes a field of its parts, where they fit together: neither dimension is
    /// zero, there is one sample for each pixel, and the pixel count and the
    /// denominator are within bounds.
    pub fn from_samples(width: u32, height: u32, denom: u64, samples: Vec<i64>) -> (made: Option<
        NoiseField,
    >)
        ensures
            made is Some <==> valid_parts(width, height, denom, samples@),
            made is Some ==> made->0@ == (FieldView {
                width: width as int,
                height: height as int,
                denom: denom as int,
                samples: sample_values(samples@),
            }),
            made is Some ==> made->0@.well_formed(),
    {
        if width == 0 || height == 0 || denom == 0 || denom > MAX_DENOM {
            return None;
        }
        let count: u64 = pixel_count(width, height);
        if count > MAX_DENOM || samples.len() as u64 != count {
            return None;
        }
        Some(NoiseField { width, height, denom, samples })
    }

    /// The field whose samples are the given ranks, counted in steps of one
    /// over their number.
    pub(crate) fn from_ranks(width: u32, height: u32, ranks: &Vec<usize>) -> (made: NoiseField)
        requires
            width > 0,
            height > 0,
            ranks@.len() == width * height,
            ranks@.len() <= MAX_DENOM,
            forall|i: int| 0 <= i < ranks@.len() ==> #[trigger] ranks@[i] < ranks@.len(),
        ensures
            made@ == (FieldView {
                width: width as int,
                height: height as int,
                denom: ranks@.len() as int,
                samples: rank_values(ranks@),
            }),
            made@.well_formed(),
    {
        let n: usize = ranks.len();
        let mut samples: Vec<i64> = Vec::new();
        let mut i: usize = 0;
        while i < n
            invariant
                i <= n,
                n == ranks@.len(),
                n <= MAX_DENOM,
                samples@.len() == i,
                forall|a: int| 0 <= a < n ==> #[trigger] ranks@[a] < n,
                forall|a: int| 0 <= a < i ==> #[trigger] samples@[a] == ranks@[a],
            decreases n - i,
        {
            samples.push(ranks[i] as i64);
            i += 1;
        }
        proof {
            assert(sample_values(samples@) =~= rank_values(ranks@));
            assert(width * height > 0) by (nonlinear_arith)
                requires
                    width > 0,
                    height > 0,
            ;
        }
        NoiseField { width, height, denom: n as u64, samples }
    }

    /// The width in pixels.
    pub fn width(&self) -> (w: u32)
        ensures
            w == self@.width,
    {
        self.width
    }

    /// The height in pixels.
    pub fn height(&self) -> (h: u32)
        ensures
            h == self@.height,
    {
        self.height
    }

    /// The denominator that all samples share.
    pub fn denom(&self) -> (d: u64)
        ensures
            d == self@.denom,
    {
        self.denom
    }

    /// The numerators, row after row from the top left.
    pub fn samples(&self) -> (s: &Vec<i64>)
        ensures
            sample_values(s@) == self@.samples,
    {
        &self.samples
    }
}

/// The number of pixels of a width by height grid.
pub fn pixel_count(width: u32, height: u32) -> (count: u64)
    ensures
        count == width * height,
{
    assert(width * height <= 0xffff_ffff * 0xffff_ffff) by (nonlinear_arith)
        requires
            width <= 0xffff_ffff,
            height <= 0xffff_ffff,
    ;
    (width as u64) * (height as u64)
}

} // verus!
