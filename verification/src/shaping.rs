//! Shaping the spectrum of a field, round by round.
//!
//! Each round blurs the field, combines the field and its blurred copies, and
//! normalizes what comes out. The blurring is not done here: a [`Shaping`] says
//! which blur it needs next, and goes on when it is handed the blurred copy.
//!
//! | Strategy | One round |
//! |---|---|
//! | Red | the blurred field, normalized |
//! | Blue | the field less its blurred copy, normalized |
//! | Green | the narrow blur less the wide blur, normalized |
//! | Purple | the field less (the narrow blur less the wide blur), normalized |
//!
//! A blur radius is written as the bit pattern of an IEEE 754 single-precision
//! number. Green and Purple are meant for a narrow radius below the wide one,
//! but take any two positive radii: with the order turned round the band is
//! inverted, and the round is still well defined.

use vstd::prelude::*;
use crate::error::NoiseError;
use crate::field::{FieldView, NoiseField, MAX_DENOM};
use crate::normalize::{is_ranked_field, ranked_field, sample_keys};
use crate::random::{is_raw_field, white_noise_float};
use crate::ranking::{key_values, lemma_ranking_is_unique};
use crate::raster::{convert_to_gray_image, quantized_pixels, GrayImage};

verus! {

/// Whether the bit pattern stands for a number greater than zero: the sign bit
/// is clear, and the rest is neither zero nor a not-a-number.
pub open spec fn sigma_is_positive(bits: u32) -> bool {
    0 < bits <= 0x7f80_0000
}

/// Tells whether a blur radius is greater than zero.
pub fn check_sigma(bits: u32) -> (positive: bool)
    ensures
        positive == sigma_is_positive(bits),
{
    0 < bits && bits <= 0x7f80_0000
}

/// How the spectrum is shaped, with the blur radii.
#[derive(Debug, Clone, Copy, PartialEq, Eq, Structural)]
pub enum Strategy {
    /// Keeps the low frequencies.
    Red { sigma: u32 },
    /// Keeps the high frequencies.
    Blue { sigma: u32 },
    /// Keeps a band of middle frequencies.
    Green { low_sigma: u32, high_sigma: u32 },
    /// Removes a band of middle frequencies.
    Purple { low_sigma: u32, high_sigma: u32 },
}

impl Strategy {
    /// Every radius is greater than zero.
    pub open spec fn valid(self) -> bool {
        match self {
            Strategy::Red { sigma } => sigma_is_positive(sigma),
            Strategy::Blue { sigma } => sigma_is_positive(sigma),
            Strategy::Green { low_sigma, high_sigma } => sigma_is_positive(low_sigma)
                && sigma_is_positive(high_sigma),
            Strategy::Purple { low_sigma, high_sigma } => sigma_is_positive(low_sigma)
                && sigma_is_positive(high_sigma),
        }
    }

    /// The strategy works on two blurred copies.
    pub open spec fn is_band(self) -> bool {
        self is Green || self is Purple
    }

    /// The blur that a round of this strategy asks for.
    pub open spec fn blur(self) -> Request {
        match self {
            Strategy::Red { sigma } => Request::Blur { sigma },
            Strategy::Blue { sigma } => Request::Blur { sigma },
            Strategy::Green { low_sigma, high_sigma } => Request::BlurBand { low_sigma, high_sigma },
            Strategy::Purple { low_sigma, high_sigma } => Request::BlurBand {
                low_sigma,
                high_sigma,
            },
        }
    }

    /// Tells whether every radius is greater than zero.
    pub fn check(&self) -> (ok: bool)
        ensures
            ok == self.valid(),
    {
        match *self {
            Strategy::Red { sigma } => check_sigma(sigma),
            Strategy::Blue { sigma } => check_sigma(sigma),
            Strategy::Green { low_sigma, high_sigma } => check_sigma(low_sigma) && check_sigma(
                high_sigma,
            ),
            Strategy::Purple { low_sigma, high_sigma } => check_sigma(low_sigma) && check_sigma(
                high_sigma,
            ),
        }
    }
}

/// What a shaping needs next.
#[derive(Debug, Clone, Copy, PartialEq, Eq, Structural)]
pub enum Request {
    /// Nothing: all rounds are done.
    Done,
    /// The field, blurred with this radius.
    Blur { sigma: u32 },
    /// The field, blurred once with each radius.
    BlurBand { low_sigma: u32, high_sigma: u32 },
}

/// The numerators of `a - b`, pixel by pixel, over the product of the two
/// denominators.
pub open spec fn difference(a: FieldView, b: FieldView) -> Seq<int> {
    Seq::new(a.samples.len(), |i: int| a.samples[i] * b.denom - b.samples[i] * a.denom)
}

/// The numerators of `low - high`, pixel by pixel, over the denominator that
/// the two share.
pub open spec fn band(low: FieldView, high: FieldView) -> Seq<int> {
    Seq::new(low.samples.len(), |i: int| low.samples[i] - high.samples[i])
}

/// The numerators of `field - (low - high)`, pixel by pixel, over the product
/// of the field's denominator and the one that `low` and `high` share.
pub open spec fn notch(field: FieldView, low: FieldView, high: FieldView) -> Seq<int> {
    Seq::new(
        field.samples.len(),
        |i: int| field.samples[i] * low.denom - (low.samples[i] - high.samples[i]) * field.denom,
    )
}

/// What one round of a strategy normalizes: for each pixel a number that is
/// greater where the combined sample is greater.
pub open spec fn round_keys(
    strategy: Strategy,
    field: FieldView,
    low: FieldView,
    high: FieldView,
) -> Seq<int> {
    match strategy {
        Strategy::Red { .. } => low.samples,
        Strategy::Blue { .. } => difference(field, low),
        Strategy::Green { .. } => band(low, high),
        Strategy::Purple { .. } => notch(field, low, high),
    }
}

/// `after` is what one round of the strategy makes of `field` and its blurred
/// copies.
pub open spec fn is_round(
    strategy: Strategy,
    field: FieldView,
    low: FieldView,
    high: FieldView,
    after: FieldView,
) -> bool {
    is_ranked_field(field, round_keys(strategy, field, low, high), after)
}

/// The product of a sample and a denominator is far from the ends of 128 bits.
proof fn lemma_product_fits(sample: int, denom: int)
    requires
        -0x8000_0000_0000_0000 <= sample <= 0x8000_0000_0000_0000,
        0 <= denom <= MAX_DENOM,
    ensures
        -0x2000_0000_0000_0000_0000_0000_0000_0000 <= sample * denom
            <= 0x2000_0000_0000_0000_0000_0000_0000_0000,
{
    assert(-0x8000_0000_0000_0000 * 0x4000_0000_0000_0000 <= sample * denom
        <= 0x8000_0000_0000_0000 * 0x4000_0000_0000_0000) by (nonlinear_arith)
        requires
            -0x8000_0000_0000_0000 <= sample <= 0x8000_0000_0000_0000,
            0 <= denom <= 0x4000_0000_0000_0000,
    ;
}

/// One round of red noise: the blurred field, normalized.
pub fn red_round(blurred: &NoiseField) -> (after: NoiseField)
    ensures
        is_ranked_field(blurred@, blurred@.samples, after@),
        after@.well_formed(),
        after@.in_unit_range(),
{
    let keys = sample_keys(blurred);
    ranked_field(blurred, &keys)
}

/// One round of blue noise: the field less its blurred copy, normalized.
pub fn blue_round(field: &NoiseField, blurred: &NoiseField) -> (after: NoiseField)
    requires
        blurred@.same_size(field@),
    ensures
        is_ranked_field(field@, difference(field@, blurred@), after@),
        after@.well_formed(),
        after@.in_unit_range(),
{
    proof {
        use_type_invariant(field);
        use_type_invariant(blurred);
        field.lemma_well_formed();
        blurred.lemma_well_formed();
    }
    let ours = field.samples();
    let theirs = blurred.samples();
    let our_denom: i128 = field.denom() as i128;
    let their_denom: i128 = blurred.denom() as i128;
    let n: usize = ours.len();
    let ghost wanted = difference(field@, blurred@);
    let mut keys: Vec<i128> = Vec::new();
    let mut i: usize = 0;
    while i < n
        invariant
            i <= n,
            n == ours@.len(),
            n == theirs@.len(),
            0 < our_denom <= MAX_DENOM,
            0 < their_denom <= MAX_DENOM,
            our_denom == field@.denom,
            their_denom == blurred@.denom,
            crate::field::sample_values(ours@) == field@.samples,
            crate::field::sample_values(theirs@) == blurred@.samples,
            wanted == difference(field@, blurred@),
            keys@.len() == i,
            forall|a: int| 0 <= a < i ==> #[trigger] keys@[a] == wanted[a],
        decreases n - i,
    {
        let f: i128 = ours[i] as i128;
        let b: i128 = theirs[i] as i128;
        proof {
            lemma_product_fits(f as int, their_denom as int);
            lemma_product_fits(b as int, our_denom as int);
            assert(field@.samples[i as int] == f);
            assert(blurred@.samples[i as int] == b);
        }
        keys.push(f * their_denom - b * our_denom);
        i += 1;
    }
    proof {
        assert(key_values(keys@) =~= wanted);
    }
    ranked_field(field, &keys)
}

/// One round of green noise: the narrow blur less the wide blur, normalized.
pub fn green_round(low: &NoiseField, high: &NoiseField) -> (after: NoiseField)
    requires
        high@.same_size(low@),
        high@.denom == low@.denom,
    ensures
        is_ranked_field(low@, band(low@, high@), after@),
        after@.well_formed(),
        after@.in_unit_range(),
{
    proof {
        use_type_invariant(low);
        use_type_invariant(high);
        low.lemma_well_formed();
        high.lemma_well_formed();
    }
    let narrow = low.samples();
    let wide = high.samples();
    let n: usize = narrow.len();
    let ghost wanted = band(low@, high@);
    let mut keys: Vec<i128> = Vec::new();
    let mut i: usize = 0;
    while i < n
        invariant
            i <= n,
            n == narrow@.len(),
            n == wide@.len(),
            crate::field::sample_values(narrow@) == low@.samples,
            crate::field::sample_values(wide@) == high@.samples,
            wanted == band(low@, high@),
            keys@.len() == i,
            forall|a: int| 0 <= a < i ==> #[trigger] keys@[a] == wanted[a],
        decreases n - i,
    {
        let l: i128 = narrow[i] as i128;
        let h: i128 = wide[i] as i128;
        proof {
            assert(low@.samples[i as int] == l);
            assert(high@.samples[i as int] == h);
        }
        keys.push(l - h);
        i += 1;
    }
    proof {
        assert(key_values(keys@) =~= wanted);
    }
    ranked_field(low, &keys)
}

/// One round of purple noise: the field less the band between the narrow and
/// the wide blur, normalized.
pub fn purple_round(field: &NoiseField, low: &NoiseField, high: &NoiseField) -> (after: NoiseField)
    requires
        low@.same_size(field@),
        high@.same_size(field@),
        high@.denom == low@.denom,
    ensures
        is_ranked_field(field@, notch(field@, low@, high@), after@),
        after@.well_formed(),
        after@.in_unit_range(),
{
    proof {
        use_type_invariant(field);
        use_type_invariant(low);
        use_type_invariant(high);
        field.lemma_well_formed();
        low.lemma_well_formed();
        high.lemma_well_formed();
    }
    let ours = field.samples();
    let narrow = low.samples();
    let wide = high.samples();
    let our_denom: i128 = field.denom() as i128;
    let band_denom: i128 = low.denom() as i128;
    let n: usize = ours.len();
    let ghost wanted = notch(field@, low@, high@);
    let mut keys: Vec<i128> = Vec::new();
    let mut i: usize = 0;
    while i < n
        invariant
            i <= n,
            n == ours@.len(),
            n == narrow@.len(),
            n == wide@.len(),
            0 < our_denom <= MAX_DENOM,
            0 < band_denom <= MAX_DENOM,
            our_denom == field@.denom,
            band_denom == low@.denom,
            crate::field::sample_values(ours@) == field@.samples,
            crate::field::sample_values(narrow@) == low@.samples,
            crate::field::sample_values(wide@) == high@.samples,
            wanted == notch(field@, low@, high@),
            keys@.len() == i,
            forall|a: int| 0 <= a < i ==> #[trigger] keys@[a] == wanted[a],
        decreases n - i,
    {
        let f: i128 = ours[i] as i128;
        let l: i128 = narrow[i] as i128;
        let h: i128 = wide[i] as i128;
        proof {
            lemma_product_fits(f as int, band_denom as int);
            lemma_product_fits(l as int, our_denom as int);
            lemma_product_fits(h as int, our_denom as int);
            assert((l - h) * our_denom == l * our_denom - h * our_denom) by (nonlinear_arith);
            assert(field@.samples[i as int] == f);
            assert(low@.samples[i as int] == l);
            assert(high@.samples[i as int] == h);
        }
        keys.push(f * band_denom - (l - h) * our_denom);
        i += 1;
    }
    proof {
        assert(key_values(keys@) =~= wanted);
    }
    ranked_field(field, &keys)
}

/// A round has one outcome: the field and its blurred copies decide it.
pub proof fn lemma_round_is_determined(
    strategy: Strategy,
    field: FieldView,
    low: FieldView,
    high: FieldView,
    first: FieldView,
    second: FieldView,
)
    requires
        is_round(strategy, field, low, high, first),
        is_round(strategy, field, low, high, second),
    ensures
        first == second,
{
    let keys = round_keys(strategy, field, low, high);
    lemma_ranking_is_unique(keys, first.samples, second.samples);
}

/// What a shaping holds, as mathematical values.
pub struct ShapingView {
    pub strategy: Strategy,
    pub field: FieldView,
    pub rounds_left: int,
}

impl ShapingView {
    /// What the shaping needs next: nothing once its rounds are done, else the
    /// blur of its strategy.
    pub open spec fn request(self) -> Request {
        if self.rounds_left == 0 {
            Request::Done
        } else {
            self.strategy.blur()
        }
    }

    /// `after` is this shaping, one round further on the blurred copies given.
    pub open spec fn steps_to(self, low: FieldView, high: FieldView, after: ShapingView) -> bool {
        &&& after.strategy == self.strategy
        &&& after.rounds_left == self.rounds_left - 1
        &&& is_round(self.strategy, self.field, low, high, after.field)
    }
}

/// A texture in the making: a field, and the rounds of shaping that it still
/// has to go through.
pub struct Shaping {
    strategy: Strategy,
    field: NoiseField,
    rounds_left: u8,
}

impl View for Shaping {
    type V = ShapingView;

    closed spec fn view(&self) -> ShapingView {
        ShapingView {
            strategy: self.strategy,
            field: self.field@,
            rounds_left: self.rounds_left as int,
        }
    }
}

impl Shaping {
    /// What every shaping keeps to: each radius of its strategy is greater
    /// than zero.
    #[verifier::type_invariant]
    pub closed spec fn holds_valid_radii(&self) -> bool {
        self.strategy.valid()
    }

    /// Sets out to shape `field` in `iterations` rounds. A strategy with a
    /// radius that is not greater than zero is turned down.
    pub fn start(strategy: Strategy, field: NoiseField, iterations: u8) -> (made: Result<
        Shaping,
        NoiseError,
    >)
        ensures
            made is Ok <==> strategy.valid(),
            made is Err ==> made->Err_0 == NoiseError::InvalidSigma,
            made is Ok ==> made->Ok_0@ == (ShapingView {
                strategy,
                field: field@,
                rounds_left: iterations as int,
            }),
    {
        if !strategy.check() {
            return Err(NoiseError::InvalidSigma);
        }
        Ok(Shaping { strategy, field, rounds_left: iterations })
    }

    /// What the shaping needs next. Every radius that it asks a blur for is
    /// greater than zero.
    pub fn request(&self) -> (next: Request)
        ensures
            next == self@.request(),
            self@.strategy.valid(),
    {
        proof {
            use_type_invariant(self);
        }
        if self.rounds_left == 0 {
            return Request::Done;
        }
        match self.strategy {
            Strategy::Red { sigma } => Request::Blur { sigma },
            Strategy::Blue { sigma } => Request::Blur { sigma },
            Strategy::Green { low_sigma, high_sigma } => Request::BlurBand { low_sigma, high_sigma },
            Strategy::Purple { low_sigma, high_sigma } => Request::BlurBand {
                low_sigma,
                high_sigma,
            },
        }
    }

    /// The field as it stands.
    pub fn field(&self) -> (current: &NoiseField)
        ensures
            current@ == self@.field,
            current@.well_formed(),
    {
        proof {
            use_type_invariant(&self.field);
            self.field.lemma_well_formed();
        }
        &self.field
    }

    /// The rounds that are still to do.
    pub fn rounds_left(&self) -> (left: u8)
        ensures
            left == self@.rounds_left,
    {
        self.rounds_left
    }

    /// Goes one round further on the blurred field that a red or a blue
    /// shaping asked for.
    pub fn supply(&mut self, blurred: &NoiseField)
        requires
            old(self)@.rounds_left > 0,
            !old(self)@.strategy.is_band(),
            blurred@.same_size(old(self)@.field),
        ensures
            old(self)@.steps_to(blurred@, blurred@, final(self)@),
            final(self)@.field.well_formed(),
            final(self)@.field.in_unit_range(),
    {
        proof {
            use_type_invariant(&*self);
        }
        let after = match self.strategy {
            Strategy::Red { .. } => {
                let ranked = red_round(blurred);
                proof {
                    use_type_invariant(&self.field);
                    use_type_invariant(blurred);
                    self.field.lemma_well_formed();
                    blurred.lemma_well_formed();
                }
                ranked
            },
            _ => blue_round(&self.field, blurred),
        };
        self.field = after;
        self.rounds_left = self.rounds_left - 1;
    }

    /// Goes one round further on the two blurred fields that a green or a
    /// purple shaping asked for.
    pub fn supply_band(&mut self, low: &NoiseField, high: &NoiseField)
        requires
            old(self)@.rounds_left > 0,
            old(self)@.strategy.is_band(),
            low@.same_size(old(self)@.field),
            high@.same_size(old(self)@.field),
            high@.denom == low@.denom,
        ensures
            old(self)@.steps_to(low@, high@, final(self)@),
            final(self)@.field.well_formed(),
            final(self)@.field.in_unit_range(),
    {
        proof {
            use_type_invariant(&*self);
        }
        let after = match self.strategy {
            Strategy::Green { .. } => {
                let ranked = green_round(low, high);
                proof {
                    use_type_invariant(&self.field);
                    use_type_invariant(low);
                    self.field.lemma_well_formed();
                    low.lemma_well_formed();
                }
                ranked
            },
            _ => purple_round(&self.field, low, high),
        };
        self.field = after;
        self.rounds_left = self.rounds_left - 1;
    }

    /// The image of the field as it stands.
    pub fn finish(self) -> (img: GrayImage)
        ensures
            img@.width == self@.field.width,
            img@.height == self@.field.height,
            img@.pixels == quantized_pixels(self@.field),
    {
        convert_to_gray_image(&self.field)
    }
}

/// A step has one outcome: the shaping and the blurred copies decide it.
pub proof fn lemma_step_is_determined(
    before: ShapingView,
    low: FieldView,
    high: FieldView,
    first: ShapingView,
    second: ShapingView,
)
    requires
        before.steps_to(low, high, first),
        before.steps_to(low, high, second),
    ensures
        first == second,
{
    lemma_round_is_determined(before.strategy, before.field, low, high, first.field, second.field);
}

/// A step keeps the width and the height of the field, so that a texture is
/// as large as the field that its shaping started from.
pub proof fn lemma_step_keeps_size(
    before: ShapingView,
    low: FieldView,
    high: FieldView,
    after: ShapingView,
)
    requires
        before.steps_to(low, high, after),
    ensures
        after.field.same_size(before.field),
        after.field.denom == before.field.samples.len(),
{
}

/// `last` is `first`, taken one round further for each pair of blurred copies
/// in `blurs`, in their order. A strategy with one blur reads the first of a
/// pair only.
pub open spec fn runs_to(
    first: ShapingView,
    blurs: Seq<(FieldView, FieldView)>,
    last: ShapingView,
) -> bool
    decreases blurs.len(),
{
    if blurs.len() == 0 {
        last == first
    } else {
        exists|next: ShapingView| #[trigger]
            first.steps_to(blurs[0].0, blurs[0].1, next) && runs_to(next, blurs.drop_first(), last)
    }
}

/// The shaping of a texture is a function of the field it starts from and of
/// the blurred copies it is handed: the same ones lead to the same field, and
/// so to the same gray levels.
pub proof fn lemma_run_is_determined(
    first: ShapingView,
    blurs: Seq<(FieldView, FieldView)>,
    one: ShapingView,
    other: ShapingView,
)
    requires
        runs_to(first, blurs, one),
        runs_to(first, blurs, other),
    ensures
        one == other,
        quantized_pixels(one.field) == quantized_pixels(other.field),
    decreases blurs.len(),
{
    if blurs.len() > 0 {
        let low = blurs[0].0;
        let high = blurs[0].1;
        let a = choose|next: ShapingView| #[trigger]
            first.steps_to(low, high, next) && runs_to(next, blurs.drop_first(), one);
        let b = choose|next: ShapingView| #[trigger]
            first.steps_to(low, high, next) && runs_to(next, blurs.drop_first(), other);
        lemma_step_is_determined(first, low, high, a, b);
        lemma_run_is_determined(a, blurs.drop_first(), one, other);
    }
}

/// A run does as many rounds as it is handed blurred copies, keeps to its
/// strategy, and keeps the width and the height of its field.
pub proof fn lemma_run_keeps_size(
    first: ShapingView,
    blurs: Seq<(FieldView, FieldView)>,
    last: ShapingView,
)
    requires
        runs_to(first, blurs, last),
    ensures
        last.strategy == first.strategy,
        last.rounds_left == first.rounds_left - blurs.len(),
        last.field.same_size(first.field),
    decreases blurs.len(),
{
    if blurs.len() > 0 {
        let next = choose|next: ShapingView| #[trigger]
            first.steps_to(blurs[0].0, blurs[0].1, next) && runs_to(next, blurs.drop_first(), last);
        lemma_run_keeps_size(next, blurs.drop_first(), last);
    }
}

/// A shaping with no rounds to do asks for no blur: its image is that of the
/// field it started from.
pub proof fn lemma_no_rounds_no_blur(shaping: ShapingView)
    requires
        shaping.rounds_left == 0,
    ensures
        shaping.request() == Request::Done,
{
}

/// A shaping that has just been set out, on a freshly drawn field.
pub open spec fn is_fresh(
    shaping: ShapingView,
    strategy: Strategy,
    width: u32,
    height: u32,
    iterations: u8,
) -> bool {
    &&& shaping.strategy == strategy
    &&& shaping.rounds_left == iterations
    &&& is_raw_field(shaping.field, width, height)
}

/// Draws a field and sets out to shape it.
fn begin(strategy: Strategy, width: u32, height: u32, iterations: u8) -> (made: Result<
    Shaping,
    NoiseError,
>)
    requires
        width * height <= MAX_DENOM,
    ensures
        made is Ok <==> width > 0 && height > 0 && strategy.valid(),
        made is Err ==> made->Err_0 == (if width == 0 || height == 0 {
            NoiseError::InvalidDimensions
        } else {
            NoiseError::InvalidSigma
        }),
        made is Ok ==> is_fresh(made->Ok_0@, strategy, width, height, iterations),
{
    if width == 0 || height == 0 {
        return Err(NoiseError::InvalidDimensions);
    }
    if !strategy.check() {
        return Err(NoiseError::InvalidSigma);
    }
    match white_noise_float(width, height) {
        Ok(field) => Shaping::start(strategy, field, iterations),
        Err(e) => Err(e),
    }
}

/// Sets out on a texture of red noise: `iterations` rounds of blurring with
/// radius `sigma`, each followed by normalizing.
pub fn red_noise(width: u32, height: u32, iterations: u8, sigma: u32) -> (made: Result<
    Shaping,
    NoiseError,
>)
    requires
        width * height <= MAX_DENOM,
    ensures
        made is Ok <==> width > 0 && height > 0 && sigma_is_positive(sigma),
        made is Err ==> made->Err_0 == (if width == 0 || height == 0 {
            NoiseError::InvalidDimensions
        } else {
            NoiseError::InvalidSigma
        }),
        made is Ok ==> is_fresh(made->Ok_0@, Strategy::Red { sigma }, width, height, iterations),
{
    begin(Strategy::Red { sigma }, width, height, iterations)
}

/// Sets out on a texture of blue noise: `iterations` rounds of taking the
/// blur with radius `sigma` off the field, each followed by normalizing.
pub fn blue_noise(width: u32, height: u32, iterations: u8, sigma: u32) -> (made: Result<
    Shaping,
    NoiseError,
>)
    requires
        width * height <= MAX_DENOM,
    ensures
        made is Ok <==> width > 0 && height > 0 && sigma_is_positive(sigma),
        made is Err ==> made->Err_0 == (if width == 0 || height == 0 {
            NoiseError::InvalidDimensions
        } else {
            NoiseError::InvalidSigma
        }),
        made is Ok ==> is_fresh(made->Ok_0@, Strategy::Blue { sigma }, width, height, iterations),
{
    begin(Strategy::Blue { sigma }, width, height, iterations)
}

/// Sets out on a texture of green noise: `iterations` rounds of keeping the
/// band between the blur with radius `low_sigma` and the blur with radius
/// `high_sigma`, each followed by normalizing.
pub fn green_noise(
    width: u32,
    height: u32,
    iterations: u8,
    low_sigma: u32,
    high_sigma: u32,
) -> (made: Result<Shaping, NoiseError>)
    requires
        width * height <= MAX_DENOM,
    ensures
        made is Ok <==> width > 0 && height > 0 && sigma_is_positive(low_sigma)
            && sigma_is_positive(high_sigma),
        made is Err ==> made->Err_0 == (if width == 0 || height == 0 {
            NoiseError::InvalidDimensions
        } else {
            NoiseError::InvalidSigma
        }),
        made is Ok ==> is_fresh(
            made->Ok_0@,
            Strategy::Green { low_sigma, high_sigma },
            width,
            height,
            iterations,
        ),
{
    begin(Strategy::Green { low_sigma, high_sigma }, width, height, iterations)
}

/// Sets out on a texture of purple noise: `iterations` rounds of taking the
/// band between the blur with radius `low_sigma` and the blur with radius
/// `high_sigma` off the field, each followed by normalizing.
pub fn purple_noise(
    width: u32,
    height: u32,
    iterations: u8,
    low_sigma: u32,
    high_sigma: u32,
) -> (made: Result<Shaping, NoiseError>)
    requires
        width * height <= MAX_DENOM,
    ensures
        made is Ok <==> width > 0 && height > 0 && sigma_is_positive(low_sigma)
            && sigma_is_positive(high_sigma),
        made is Err ==> made->Err_0 == (if width == 0 || height == 0 {
            NoiseError::InvalidDimensions
        } else {
            NoiseError::InvalidSigma
        }),
        made is Ok ==> is_fresh(
            made->Ok_0@,
            Strategy::Purple { low_sigma, high_sigma },
            width,
            height,
            iterations,
        ),
{
    begin(Strategy::Purple { low_sigma, high_sigma }, width, height, iterations)
}

} // verus!
