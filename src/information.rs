//! What a host learns after a generation has been bred.
use vstd::prelude::*;
use crate::random::total;

verus! {

/// Which generation is now alive.
#[derive(Debug, Clone, Copy, PartialEq, Eq, Structural)]
pub struct Information {
    generation: usize,
}

impl Information {
    pub fn new(generation: usize) -> (r: Self)
        ensures
            r.generation() == generation,
    {
        Information { generation }
    }

    pub closed spec fn spec_generation(&self) -> usize {
        self.generation
    }

    #[verifier::when_used_as_spec(spec_generation)]
    pub fn generation(&self) -> (r: usize)
        ensures
            r == self.spec_generation(),
    {
        self.generation
    }
}

/// The fitness of the population that was just replaced: its least, its
/// greatest, its sum and its size (the average is `sum / size`).
#[derive(Debug, Clone, Copy, PartialEq, Eq, Structural)]
pub struct Statistics {
    pub min_fitness: u64,
    pub max_fitness: u64,
    pub sum_fitness: u128,
    pub population: usize,
}

/// `m` is the least of `w`.
pub open spec fn is_min(w: Seq<u64>, m: u64) -> bool {
    &&& exists|i: int| 0 <= i < w.len() && w[i] == m
    &&& forall|i: int| 0 <= i < w.len() ==> m <= w[i]
}

/// `m` is the greatest of `w`.
pub open spec fn is_max(w: Seq<u64>, m: u64) -> bool {
    &&& exists|i: int| 0 <= i < w.len() && w[i] == m
    &&& forall|i: int| 0 <= i < w.len() ==> w[i] <= m
}

impl Statistics {
    /// Summarises a non-empty list of fitness values.
    pub fn of(fitness: &Vec<u64>) -> (r: Statistics)
        requires
            fitness@.len() > 0,
        ensures
            is_min(fitness@, r.min_fitness),
            is_max(fitness@, r.max_fitness),
            r.sum_fitness == total(fitness@),
            r.population == fitness@.len(),
    {
        let mut lo: u64 = fitness[0];
        let mut hi: u64 = fitness[0];
        let mut sum: u128 = 0;
        let mut i: usize = 0;
        while i < fitness.len()
            invariant
                fitness@.len() > 0,
                i <= fitness@.len(),
                sum == total(fitness@.subrange(0, i as int)),
                sum <= i * (u64::MAX as int),
                exists|k: int| 0 <= k < fitness@.len() && fitness@[k] == lo,
                exists|k: int| 0 <= k < fitness@.len() && fitness@[k] == hi,
                forall|k: int| 0 <= k < i ==> lo <= #[trigger] fitness@[k] && fitness@[k] <= hi,
            decreases fitness@.len() - i,
        {
            let f = fitness[i];
            proof {
                assert(fitness@.subrange(0, i + 1).drop_last() == fitness@.subrange(0, i as int));
                assert(sum + f <= (i + 1) * (u64::MAX as int)) by (nonlinear_arith)
                    requires
                        sum <= i * (u64::MAX as int),
                        f <= u64::MAX,
                ;
                assert((i + 1) * (u64::MAX as int) <= u128::MAX) by (nonlinear_arith)
                    requires
                        i < usize::MAX,
                        usize::MAX <= u64::MAX,
                ;
            }
            sum = sum + f as u128;
            if f < lo {
                lo = f;
            }
            if f > hi {
                hi = f;
            }
            i = i + 1;
        }
        proof {
            assert(fitness@.subrange(0, i as int) == fitness@);
        }
        Statistics { min_fitness: lo, max_fitness: hi, sum_fitness: sum, population: fitness.len() }
    }
}

} // verus!
