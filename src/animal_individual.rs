//! An animal as the genetic algorithm sees it: its brain's encoding and
//! how much it ate.
use vstd::prelude::*;
use crate::brain::Brain;
use crate::chromosome::Crhomosome;
use crate::individual::Individual;
use crate::network::DecodeError;

verus! {

/// One member of a population handed to the genetic algorithm.
pub struct AnimalIndividual<W> {
    pub fitness: u64,
    pub chromosome: Crhomosome<W>,
}

impl<W: Copy> AnimalIndividual<W> {
    /// The individual standing for an animal with this brain that has eaten
    /// `satiation` times: its fitness is that count.
    pub fn from_brain(brain: &Brain<W>, satiation: u64) -> (r: Self)
        ensures
            r.fitness == satiation,
            r.chromosome@ == brain.spec_network().flat(),
    {
        AnimalIndividual { fitness: satiation, chromosome: brain.as_crhomosome() }
    }

    /// Decodes the individual's chromosome into a brain for an eye of
    /// `cells` cells.
    pub fn into_brain(self, cells: usize) -> (r: Result<Brain<W>, DecodeError>)
        requires
            cells <= usize::MAX / 2,
        ensures
            r is Ok <==> self.chromosome@.len() == crate::brain::brain_weight_count(cells as nat),
            r matches Ok(b) ==> b.spec_network().flat() == self.chromosome@
                && b.spec_network().shaped(crate::brain::brain_topology(cells as nat)),
    {
        let r = Brain::from_crhomosome(self.chromosome, cells);
        proof {
            match r {
                Err(DecodeError::TooFewWeights) => {},
                Err(DecodeError::TooManyWeights) => {},
                Ok(_) => {},
            }
        }
        r
    }
}

impl<W: Copy> Individual<W> for AnimalIndividual<W> {
    open spec fn fitness_of(&self) -> u64 {
        self.fitness
    }

    open spec fn genes_of(&self) -> Seq<W> {
        self.chromosome@
    }

    /// A newborn has eaten nothing yet.
    fn create(chromosome: Crhomosome<W>) -> (r: Self)
        ensures
            r.fitness == 0,
    {
        AnimalIndividual { fitness: 0, chromosome }
    }

    fn fitness(&self) -> (r: u64) {
        self.fitness
    }

    fn chromosome(&self) -> (r: &Crhomosome<W>) {
        &self.chromosome
    }
}

} // verus!
