//! Picking parents from a population.
use vstd::prelude::*;
use crate::individual::{Individual, fitnesses};
use crate::random::{total, weighted_index};

verus! {

/// Why no parent could be picked.
#[derive(Debug, Clone, Copy, PartialEq, Eq, Structural)]
pub enum SelectionError {
    /// Every fitness is zero: fitness-proportionate weighting is undefined.
    ZeroFitness,
    /// The fitness values sum past `u64::MAX`.
    FitnessOverflow,
}

/// A way of drawing one member of a non-empty population.
pub trait SelectionMethod {
    /// Whether a draw succeeds on a population with these fitness values.
    spec fn admits(&self, fitness: Seq<u64>) -> bool;

    /// Whether a draw on these fitness values may return index `i`.
    spec fn picks(&self, fitness: Seq<u64>, i: int) -> bool;

    /// Draws the index of one member of `population`.
    fn select<G, I: Individual<G>>(
        &self,
        rng: &mut rand_chacha::ChaCha8Rng,
        population: &Vec<I>,
    ) -> (r: Result<usize, SelectionError>)
        requires
            population@.len() > 0,
        ensures
            r is Ok <==> self.admits(fitnesses(population@)),
            r matches Ok(i) ==> i < population@.len() && self.picks(fitnesses(population@), i as int),
    ;
}

/// Whether some weight is positive.
pub open spec fn some_positive(w: Seq<u64>) -> bool {
    exists|i: int| 0 <= i < w.len() && w[i] > 0
}

/// Fitness-proportionate sampling with replacement: each member's chance
/// is its fitness over the population's total fitness.
pub struct RouletteWheelSelection;

proof fn lemma_total_zero(w: Seq<u64>)
    requires
        !some_positive(w),
    ensures
        total(w) == 0,
    decreases w.len(),
{
    if w.len() > 0 {
        assert(!some_positive(w.drop_last())) by {
            if some_positive(w.drop_last()) {
                let i = choose|i: int| 0 <= i < w.drop_last().len() && w.drop_last()[i] > 0;
                assert(w[i] > 0);
            }
        }
        lemma_total_zero(w.drop_last());
    }
}

proof fn lemma_total_positive(w: Seq<u64>, i: int)
    requires
        0 <= i < w.len(),
        w[i] > 0,
    ensures
        total(w) > 0,
    decreases w.len(),
{
    lemma_total_nonneg(w.drop_last());
    if i < w.len() - 1 {
        lemma_total_positive(w.drop_last(), i);
    }
}

proof fn lemma_total_nonneg(w: Seq<u64>)
    ensures
        total(w) >= 0,
    decreases w.len(),
{
    if w.len() > 0 {
        lemma_total_nonneg(w.drop_last());
    }
}

impl RouletteWheelSelection {
    /// Checks that fitness-proportionate weights are usable: not all zero,
    /// and summing within `u64`. On success, returns the total.
    pub fn total_weight(weights: &Vec<u64>) -> (r: Result<u64, SelectionError>)
        ensures
            r == (if total(weights@) > u64::MAX {
                Err(SelectionError::FitnessOverflow)
            } else if !some_positive(weights@) {
                Err(SelectionError::ZeroFitness)
            } else {
                Ok(total(weights@) as u64)
            }),
    {
        let mut sum: u64 = 0;
        let mut i: usize = 0;
        while i < weights.len()
            invariant
                i <= weights@.len(),
                sum == total(weights@.subrange(0, i as int)),
            decreases weights@.len() - i,
        {
            proof {
                assert(weights@.subrange(0, i + 1).drop_last() == weights@.subrange(0, i as int));
            }
            if weights[i] > u64::MAX - sum {
                proof {
                    lemma_total_prefix_bound(weights@, i as int + 1);
                }
                return Err(SelectionError::FitnessOverflow);
            }
            sum = sum + weights[i];
            i = i + 1;
        }
        proof {
            assert(weights@.subrange(0, weights@.len() as int) == weights@);
        }
        if sum == 0 {
            proof {
                if some_positive(weights@) {
                    let k = choose|k: int| 0 <= k < weights@.len() && weights@[k] > 0;
                    lemma_total_positive(weights@, k);
                }
            }
            Err(SelectionError::ZeroFitness)
        } else {
            proof {
                if !some_positive(weights@) {
                    lemma_total_zero(weights@);
                }
            }
            Ok(sum)
        }
    }

    /// Draws an index with probability proportional to its weight; an index
    /// of weight zero is never drawn.
    pub fn pick(rng: &mut rand_chacha::ChaCha8Rng, weights: &Vec<u64>) -> (r: Result<usize, SelectionError>)
        requires
            weights@.len() > 0,
        ensures
            r is Err ==> r == (if total(weights@) > u64::MAX {
                Err::<usize, SelectionError>(SelectionError::FitnessOverflow)
            } else {
                Err::<usize, SelectionError>(SelectionError::ZeroFitness)
            }),
            r is Ok <==> (some_positive(weights@) && total(weights@) <= u64::MAX),
            r matches Ok(i) ==> i < weights@.len() && weights@[i as int] > 0,
    {
        match Self::total_weight(weights) {
            Err(e) => Err(e),
            Ok(_) => {
                match weighted_index(rng, weights) {
                    Some(i) => Ok(i),
                    None => {
                        proof {
                            let k = choose|k: int| 0 <= k < weights@.len() && weights@[k] > 0;
                            lemma_total_positive(weights@, k);
                        }
                        Err(SelectionError::ZeroFitness)
                    },
                }
            },
        }
    }
}

/// A prefix of non-negative weights sums to no more than the whole.
proof fn lemma_total_prefix_bound(w: Seq<u64>, k: int)
    requires
        0 <= k <= w.len(),
    ensures
        total(w.subrange(0, k)) <= total(w),
    decreases w.len() - k,
{
    if k < w.len() {
        lemma_total_prefix_bound(w, k + 1);
        assert(w.subrange(0, k + 1).drop_last() == w.subrange(0, k));
    } else {
        assert(w.subrange(0, k) == w);
    }
}

impl SelectionMethod for RouletteWheelSelection {
    open spec fn admits(&self, fitness: Seq<u64>) -> bool {
        some_positive(fitness) && total(fitness) <= u64::MAX
    }

    /// Only a member of positive fitness is ever drawn.
    open spec fn picks(&self, fitness: Seq<u64>, i: int) -> bool {
        fitness[i] > 0
    }

    fn select<G, I: Individual<G>>(
        &self,
        rng: &mut rand_chacha::ChaCha8Rng,
        population: &Vec<I>,
    ) -> (r: Result<usize, SelectionError>)
        ensures
            r matches Ok(i) ==> population@[i as int].fitness_of() > 0,
    {
        let mut weights: Vec<u64> = Vec::with_capacity(population.len());
        let mut i: usize = 0;
        while i < population.len()
            invariant
                i <= population@.len(),
                weights@ == fitnesses(population@).subrange(0, i as int),
            decreases population@.len() - i,
        {
            weights.push(population[i].fitness());
            i = i + 1;
        }
        assert(weights@ == fitnesses(population@));
        Self::pick(rng, &weights)
    }
}

} // verus!
