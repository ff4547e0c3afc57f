//! The pseudo-random source: one explicitly passed ChaCha8 stream, and the
//! few draws the library makes from it.
use vstd::prelude::*;

verus! {

/// The generator type of `rand_chacha`, carried through opaquely.
#[verifier::external_type_specification]
#[verifier::external_body]
pub struct ExChaCha8Rng(rand_chacha::ChaCha8Rng);

/// Relies on `rand::Rng::random_ratio(1, 2)`: a fair coin, drawn from the
/// stream exactly as `random_bool(0.5)` draws it.
#[verifier::external_body]
pub(crate) fn fair_coin(rng: &mut rand_chacha::ChaCha8Rng) -> (r: bool) {
    rand::Rng::random_ratio(rng, 1, 2)
}

/// The sum of a sequence of weights.
pub open spec fn total(w: Seq<u64>) -> int
    decreases w.len(),
{
    if w.len() == 0 {
        0
    } else {
        total(w.drop_last()) + w.last()
    }
}

/// Relies on `rand::distr::weighted::WeightedIndex` over `u64` weights:
/// `new` fails only on an empty list, on a total past `u64::MAX` and on a
/// total of zero; a drawn index falls in the half-open band of cumulative
/// weight that its own weight spans, so it is in range and never one of
/// weight zero.
#[verifier::external_body]
pub(crate) fn weighted_index(rng: &mut rand_chacha::ChaCha8Rng, weights: &Vec<u64>) -> (r: Option<usize>)
    ensures
        weights@.len() > 0 && 0 < total(weights@) <= u64::MAX ==> r is Some,
        r matches Some(i) ==> i < weights@.len() && weights@[i as int] > 0,
{
    match rand::distr::weighted::WeightedIndex::new(weights.iter()) {
        Ok(d) => Some(rand::Rng::sample(rng, d)),
        Err(_) => None,
    }
}

} // verus!
