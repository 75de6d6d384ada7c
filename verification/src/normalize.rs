//! Spreading the samples of a field evenly over `[0, 1)`.
//!
//! Blurring pulls every sample towards the mean. Normalizing undoes that: it
//! forgets how far the samples lie apart and keeps only their order, so that a
//! field of `n` pixels holds each of `0, 1/n, .., (n - 1)/n` once. The greatest
//! sample becomes 0, the least becomes `(n - 1)/n`.

use vstd::prelude::*;
use crate::field::{FieldView, NoiseField};
use crate::ranking::{
    all_ranks, is_ranking, key_values, lemma_ranking_is_uniform, lemma_ranking_is_unique,
    lemma_ranking_reverses_order, rank_descending, rank_values,
};

verus! {

/// `after` is the field that ranks pixel by pixel what `keys` orders: as wide
/// and as high as `before`, counting in steps of one over the number of pixels.
pub open spec fn is_ranked_field(before: FieldView, keys: Seq<int>, after: FieldView) -> bool {
    &&& after.same_size(before)
    &&& after.denom == before.samples.len()
    &&& is_ranking(keys, after.samples)
}

/// `after` is `before`, normalized.
pub open spec fn is_normalized(before: FieldView, after: FieldView) -> bool {
    is_ranked_field(before, before.samples, after)
}

/// Ranks the keys, one for each pixel of `shape`, and lays the ranks out as a
/// field of that shape.
pub fn ranked_field(shape: &NoiseField, keys: &Vec<i128>) -> (after: NoiseField)
    requires
        keys@.len() == shape@.samples.len(),
    ensures
        is_ranked_field(shape@, key_values(keys@), after@),
        after@.well_formed(),
        after@.in_unit_range(),
{
    proof {
        use_type_invariant(shape);
        shape.lemma_well_formed();
    }
    let ranks = rank_descending(keys);
    proof {
        let rv = rank_values(ranks@);
        assert forall|i: int| 0 <= i < ranks@.len() implies #[trigger] ranks@[i] < ranks@.len() by {
            assert(0 <= rv[i] < keys@.len());
        }
    }
    NoiseField::from_ranks(shape.width(), shape.height(), &ranks)
}

/// The samples of a field as sort keys.
pub fn sample_keys(field: &NoiseField) -> (keys: Vec<i128>)
    ensures
        key_values(keys@) == field@.samples,
{
    let samples = field.samples();
    let n: usize = samples.len();
    let mut keys: Vec<i128> = Vec::new();
    let mut i: usize = 0;
    while i < n
        invariant
            i <= n,
            n == samples@.len(),
            keys@.len() == i,
            forall|a: int| 0 <= a < i ==> #[trigger] keys@[a] == samples@[a],
        decreases n - i,
    {
        keys.push(samples[i] as i128);
        i += 1;
    }
    proof {
        assert(key_values(keys@) =~= crate::field::sample_values(samples@));
    }
    keys
}

/// Replaces every sample by its rank over the number of pixels: the greatest
/// sample becomes 0, the next `1/n`, and so on down to the least, which becomes
/// `(n - 1)/n`. Of two equal samples the one that stands first gets the smaller
/// value.
pub fn normalize_histogram(field: &mut NoiseField)
    ensures
        is_normalized(old(field)@, final(field)@),
        final(field)@.well_formed(),
        final(field)@.in_unit_range(),
{
    let keys = sample_keys(field);
    let after = ranked_field(field, &keys);
    *field = after;
}

/// After normalizing, the samples of an `n`-pixel field are `0, 1, .., n - 1`
/// over `n`, each exactly once.
pub proof fn lemma_normalized_is_uniform(before: FieldView, after: FieldView)
    requires
        is_normalized(before, after),
    ensures
        after.denom == before.samples.len(),
        after.samples.to_multiset() =~= all_ranks(before.samples.len()).to_multiset(),
{
    lemma_ranking_is_uniform(before.samples, after.samples);
}

/// Normalizing keeps two pixels with different samples in a strict order, and
/// turns it round: the greater sample gets the smaller value.
pub proof fn lemma_normalized_reverses_order(before: FieldView, after: FieldView, i: int, j: int)
    requires
        is_normalized(before, after),
        0 <= i < before.samples.len(),
        0 <= j < before.samples.len(),
        before.samples[i] > before.samples[j],
    ensures
        after.samples[i] < after.samples[j],
{
    lemma_ranking_reverses_order(before.samples, after.samples, i, j);
}

/// A field has one normalized form.
pub proof fn lemma_normalized_is_unique(before: FieldView, first: FieldView, second: FieldView)
    requires
        is_normalized(before, first),
        is_normalized(before, second),
    ensures
        first == second,
{
    lemma_ranking_is_unique(before.samples, first.samples, second.samples);
}

} // verus!
