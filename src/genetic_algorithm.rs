//! The generational loop: select, cross over, mutate, create.
use vstd::prelude::*;
use crate::chromosome::Crhomosome;
use crate::crossover::CrossoverMethod;
use crate::individual::{Individual, fitnesses};
use crate::mutation::{MutationMethod, mutated};
use crate::selection::{SelectionError, SelectionMethod};

verus! {

/// Why a generation could not be bred.
#[derive(Debug, Clone, Copy, PartialEq, Eq, Structural)]
pub enum EvolveError {
    /// The selection strategy refused the population's fitness values.
    Selection(SelectionError),
    /// Two chosen parents carry chromosomes of different lengths.
    ChromosomeLengthMismatch,
}

/// Every member's chromosome has `len` genes.
pub open spec fn uniform_length<G, I: Individual<G>>(population: Seq<I>, len: nat) -> bool {
    forall|k: int| 0 <= k < population.len() ==> population[k].genes_of().len() == len
}

/// A genetic algorithm, fixed by its three strategies.
pub struct GeneticAlgorithm<S, C, M> {
    selection_method: S,
    crossover_method: C,
    mutation_method: M,
}

impl<S, C, M> GeneticAlgorithm<S, C, M> {
    pub fn new(selection_method: S, crossover_method: C, mutation_method: M) -> (r: Self)
        ensures
            r.selection() == selection_method,
            r.crossover() == crossover_method,
            r.mutation() == mutation_method,
    {
        GeneticAlgorithm { selection_method, crossover_method, mutation_method }
    }

    pub closed spec fn selection(&self) -> S {
        self.selection_method
    }

    pub closed spec fn crossover(&self) -> C {
        self.crossover_method
    }

    pub closed spec fn mutation(&self) -> M {
        self.mutation_method
    }
}

/// `child` is what one slot of a bred generation may hold: the crossover
/// of two members that selection may draw (possibly the same one), every
/// gene of it then mutated in place.
pub open spec fn bred_from<G: Copy, I: Individual<G>, S: SelectionMethod, C: CrossoverMethod<G>, M: MutationMethod<G>>(
    ga: GeneticAlgorithm<S, C, M>,
    population: Seq<I>,
    child: Seq<G>,
) -> bool {
    exists|a: int, b: int, crossed: Seq<G>|
        {
            &&& 0 <= a < population.len()
            &&& 0 <= b < population.len()
            &&& ga.selection().picks(fitnesses(population), a)
            &&& ga.selection().picks(fitnesses(population), b)
            &&& #[trigger] ga.crossover().crosses_to(
                population[a].genes_of(),
                population[b].genes_of(),
                crossed,
            )
            &&& mutated(ga.mutation(), crossed, child)
        }
}

impl<S: SelectionMethod, C, M> GeneticAlgorithm<S, C, M> {
    /// Breeds a new population of the same size. For each slot, two parents
    /// are drawn independently (possibly the same member), crossed over, the
    /// child mutated and made into a new individual. The input is never
    /// changed and nothing of it is carried over.
    pub fn envolve<G: Copy, I: Individual<G>>(
        &self,
        rng: &mut rand_chacha::ChaCha8Rng,
        population: &Vec<I>,
    ) -> (r: Result<Vec<I>, EvolveError>)
        where
            C: CrossoverMethod<G>,
            M: MutationMethod<G>,
        requires
            population@.len() > 0,
        ensures
            r matches Ok(next) ==> next@.len() == population@.len(),
            r matches Ok(next) ==> forall|k: int|
                0 <= k < next@.len() ==> bred_from(*self, population@, #[trigger] next@[k].genes_of()),
            r matches Ok(next) ==> forall|len: nat|
                uniform_length(population@, len) ==> #[trigger] uniform_length(next@, len),
            !self.selection().admits(fitnesses(population@)) ==> r == Err::<Vec<I>, EvolveError>(
                EvolveError::Selection(SelectionError::ZeroFitness),
            ) || r == Err::<Vec<I>, EvolveError>(
                EvolveError::Selection(SelectionError::FitnessOverflow),
            ),
            (exists|len: nat| uniform_length(population@, len)) ==> (r is Ok
                <==> self.selection().admits(fitnesses(population@))),
    {
        let n = population.len();
        let mut next: Vec<I> = Vec::with_capacity(n);
        let mut i: usize = 0;
        while i < n
            invariant
                n == population@.len(),
                n > 0,
                i <= n,
                next@.len() == i,
                i > 0 ==> self.selection().admits(fitnesses(population@)),
                forall|k: int|
                    0 <= k < i ==> bred_from(*self, population@, #[trigger] next@[k].genes_of()),
                forall|len: nat|
                    uniform_length(population@, len) ==> #[trigger] uniform_length(next@, len),
            decreases n - i,
        {
            let a = match self.selection_method.select(rng, population) {
                Ok(a) => a,
                Err(e) => {
                    return Err(EvolveError::Selection(e));
                },
            };
            let b = match self.selection_method.select(rng, population) {
                Ok(b) => b,
                Err(e) => {
                    return Err(EvolveError::Selection(e));
                },
            };
            let parent_a = population[a].chromosome();
            let parent_b = population[b].chromosome();
            if parent_a.len() != parent_b.len() {
                proof {
                    assert forall|len: nat| !uniform_length(population@, len) by {
                        if uniform_length(population@, len) {
                            assert(population@[a as int].genes_of().len() == len);
                            assert(population@[b as int].genes_of().len() == len);
                        }
                    }
                }
                return Err(EvolveError::ChromosomeLengthMismatch);
            }
            let mut child = self.crossover_method.crossover(rng, parent_a, parent_b);
            let ghost crossed = child@;
            self.mutation_method.mutate(rng, &mut child);
            let member = I::create(child);
            proof {
                assert(self.crossover().crosses_to(
                    population@[a as int].genes_of(),
                    population@[b as int].genes_of(),
                    crossed,
                ));
                assert(mutated(self.mutation(), crossed, member.genes_of()));
                assert(bred_from(*self, population@, member.genes_of()));
                assert forall|k: int| 0 <= k < i + 1 implies bred_from(
                    *self,
                    population@,
                    #[trigger] next@.push(member)[k].genes_of(),
                ) by {
                    if k < i {
                        assert(next@.push(member)[k] == next@[k]);
                    }
                }
                assert forall|len: nat| uniform_length(population@, len) implies #[trigger] uniform_length(next@.push(member), len) by {
                    assert(population@[a as int].genes_of().len() == len);
                    assert forall|k: int| 0 <= k < next@.len() + 1 implies next@.push(member)[k].genes_of().len() == len by {
                        if k < next@.len() {
                            assert(uniform_length(next@, len));
                        }
                    }
                }
            }
            next.push(member);
            i = i + 1;
        }
        Ok(next)
    }
}

} // verus!
