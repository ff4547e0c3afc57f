//! The simulation's generation lifecycle: when a generation ends, and how
//! the next one's brains are bred from the current one.
use vstd::prelude::*;
use crate::animal_individual::AnimalIndividual;
use crate::brain::{Brain, brain_topology, brain_weight_count};
use crate::crossover::CrossoverMethod;
use crate::genetic_algorithm::{EvolveError, GeneticAlgorithm, bred_from, uniform_length};
use crate::individual::{Individual, fitnesses};
use crate::mutation::MutationMethod;
use crate::network::DecodeError;
use crate::selection::SelectionMethod;

verus! {

/// How many steps a generation lives before it is replaced.
pub const GENERATION_LENGTH: usize = 2500;

/// The age after one more step that starts at age `age`.
pub open spec fn next_age(age: nat) -> nat {
    if age >= GENERATION_LENGTH {
        0
    } else {
        age + 1
    }
}

/// Whether the step that starts at age `age` ends its generation.
pub open spec fn ends_generation(age: nat) -> bool {
    age >= GENERATION_LENGTH
}

/// The age after `n` steps from age `age`.
pub open spec fn age_after(age: nat, n: nat) -> nat
    decreases n,
{
    if n == 0 {
        age
    } else {
        next_age(age_after(age, (n - 1) as nat))
    }
}

/// How many generations end within `n` steps from age `age`.
pub open spec fn replacements_within(age: nat, n: nat) -> nat
    decreases n,
{
    if n == 0 {
        0
    } else {
        replacements_within(age, (n - 1) as nat) + if ends_generation(age_after(age, (n - 1) as nat)) {
            1nat
        } else {
            0nat
        }
    }
}

proof fn lemma_young_generation(n: nat)
    requires
        n <= GENERATION_LENGTH,
    ensures
        age_after(0, n) == n,
        replacements_within(0, n) == 0,
    decreases n,
{
    if n > 0 {
        lemma_young_generation((n - 1) as nat);
    }
}

/// From a fresh start, `GENERATION_LENGTH + 1` steps replace the population
/// exactly once, and leave the age counter reset.
pub proof fn law_one_replacement_per_generation()
    ensures
        replacements_within(0, (GENERATION_LENGTH + 1) as nat) == 1,
        age_after(0, (GENERATION_LENGTH + 1) as nat) == 0,
{
    lemma_young_generation(GENERATION_LENGTH as nat);
}

/// Counts steps within the living generation, and generations bred so far.
#[derive(Debug, Clone, Copy, PartialEq, Eq, Structural)]
pub struct GenerationClock {
    age: usize,
    generation: usize,
}

impl GenerationClock {
    pub closed spec fn spec_age(&self) -> usize {
        self.age
    }

    pub closed spec fn spec_generation(&self) -> usize {
        self.generation
    }

    /// A clock at age zero of generation zero.
    pub fn new() -> (r: Self)
        ensures
            r.spec_age() == 0,
            r.spec_generation() == 0,
    {
        GenerationClock { age: 0, generation: 0 }
    }

    pub fn age(&self) -> (r: usize)
        ensures
            r == self.spec_age(),
    {
        self.age
    }

    pub fn generation(&self) -> (r: usize)
        ensures
            r == self.spec_generation(),
    {
        self.generation
    }

    /// Counts one step. Returns whether it ends the generation, in which
    /// case the age restarts at zero and the generation count goes up by
    /// one (staying at `usize::MAX` once there).
    pub fn tick(&mut self) -> (ended: bool)
        ensures
            ended == ends_generation(old(self).spec_age() as nat),
            final(self).spec_age() == next_age(old(self).spec_age() as nat),
            final(self).spec_generation() == if ended && old(self).spec_generation() < usize::MAX {
                old(self).spec_generation() + 1
            } else {
                old(self).spec_generation() as int
            },
    {
        if self.age >= GENERATION_LENGTH {
            self.age = 0;
            if self.generation < usize::MAX {
                self.generation = self.generation + 1;
            }
            true
        } else {
            self.age = self.age + 1;
            false
        }
    }
}

/// Why the next generation could not be bred.
#[derive(Debug, Clone, Copy, PartialEq, Eq, Structural)]
pub enum GenerationError {
    Evolve(EvolveError),
    Decode(DecodeError),
}

/// Decodes each bred individual's chromosome, in order, into a brain for
/// an eye of `cells` cells. Fails exactly when some chromosome does not
/// have a brain's length.
pub fn decode_brains<W: Copy>(bred: Vec<AnimalIndividual<W>>, cells: usize) -> (r: Result<
    Vec<Brain<W>>,
    DecodeError,
>)
    requires
        cells <= usize::MAX / 2,
    ensures
        r is Ok <==> uniform_length(bred@, brain_weight_count(cells as nat) as nat),
        r matches Ok(brains) ==> brains@.len() == bred@.len() && forall|k: int|
            0 <= k < brains@.len() ==> (#[trigger] brains@[k]).spec_network().flat()
                == bred@[k].chromosome@ && brains@[k].spec_network().shaped(
                brain_topology(cells as nat),
            ),
{
    let ghost count = brain_weight_count(cells as nat) as nat;
    proof {
        crate::brain::lemma_brain_weight_count(cells as nat);
    }
    let ghost all = bred@;
    let n = bred.len();
    let mut brains: Vec<Brain<W>> = Vec::with_capacity(n);
    let mut rest = bred;
    let mut i: usize = 0;
    while i < n
        invariant
            n == all.len(),
            all == bred@,
            i <= n,
            rest@ == all.subrange(i as int, n as int),
            brains@.len() == i,
            cells <= usize::MAX / 2,
            count == brain_weight_count(cells as nat),
            forall|k: int| 0 <= k < i ==> (#[trigger] all[k]).chromosome@.len() == count,
            forall|k: int|
                0 <= k < i ==> (#[trigger] brains@[k]).spec_network().flat() == all[k].chromosome@
                    && brains@[k].spec_network().shaped(brain_topology(cells as nat)),
        decreases n - i,
    {
        let ghost before = rest@;
        let member = rest.remove(0);
        proof {
            assert(member == all[i as int]);
            assert(rest@ =~= all.subrange(i + 1, n as int));
        }
        let brain = match member.into_brain(cells) {
            Ok(brain) => brain,
            Err(e) => {
                proof {
                    assert(all[i as int].genes_of().len() != count);
                    if uniform_length(all, count) {
                        assert(all[i as int].genes_of().len() == count);
                    }
                }
                return Err(e);
            },
        };
        let ghost prev = brains@;
        brains.push(brain);
        proof {
            assert forall|k: int| 0 <= k < i + 1 implies (#[trigger] brains@[k]).spec_network().flat()
                == all[k].chromosome@ && brains@[k].spec_network().shaped(
                brain_topology(cells as nat),
            ) by {
                if k < i {
                    assert(brains@[k] == prev[k]);
                }
            }
        }
        i = i + 1;
    }
    proof {
        assert forall|k: int| 0 <= k < all.len() implies all[k].genes_of().len() == count by {
            assert(all[k].chromosome@.len() == count);
        }
    }
    Ok(brains)
}

/// Breeds the brains of the next generation from the current population,
/// one for each member, each decoded from a bred chromosome for an eye of
/// `cells` cells.
pub fn next_generation<W: Copy, S: SelectionMethod, C: CrossoverMethod<W>, M: MutationMethod<W>>(
    ga: &GeneticAlgorithm<S, C, M>,
    rng: &mut rand_chacha::ChaCha8Rng,
    population: &Vec<AnimalIndividual<W>>,
    cells: usize,
) -> (r: Result<Vec<Brain<W>>, GenerationError>)
    requires
        population@.len() > 0,
        cells <= usize::MAX / 2,
    ensures
        r matches Ok(brains) ==> brains@.len() == population@.len() && forall|k: int|
            0 <= k < brains@.len() ==> (#[trigger] brains@[k]).spec_network().shaped(
                brain_topology(cells as nat),
            ) && bred_from(*ga, population@, brains@[k].spec_network().flat()),
        uniform_length(population@, brain_weight_count(cells as nat) as nat) ==> (r is Ok
            <==> ga.selection().admits(fitnesses(population@))),
        uniform_length(population@, brain_weight_count(cells as nat) as nat)
            && ga.selection().admits(fitnesses(population@)) ==> (r matches Ok(brains)
            && brains@.len() == population@.len()),
{
    let bred = match ga.envolve(rng, population) {
        Ok(bred) => bred,
        Err(e) => {
            return Err(GenerationError::Evolve(e));
        },
    };
    let ghost children = bred@;
    match decode_brains(bred, cells) {
        Ok(brains) => {
            proof {
                assert forall|k: int| 0 <= k < brains@.len() implies bred_from(
                    *ga,
                    population@,
                    (#[trigger] brains@[k]).spec_network().flat(),
                ) by {
                    assert(bred_from(*ga, population@, children[k].genes_of()));
                }
            }
            Ok(brains)
        },
        Err(e) => Err(GenerationError::Decode(e)),
    }
}

} // verus!
