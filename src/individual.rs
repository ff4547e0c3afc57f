//! What the genetic algorithm asks of the things it breeds.
use vstd::prelude::*;
use crate::chromosome::Crhomosome;

verus! {

/// A member of a population: built from a chromosome, it holds that
/// chromosome and reports a non-negative fitness.
pub trait Individual<G>: Sized {
    /// The fitness this individual reports.
    spec fn fitness_of(&self) -> u64;

    /// The genes of the chromosome this individual holds.
    spec fn genes_of(&self) -> Seq<G>;

    fn create(chromosome: Crhomosome<G>) -> (r: Self)
        ensures
            r.genes_of() == chromosome@,
    ;

    fn fitness(&self) -> (r: u64)
        ensures
            r == self.fitness_of(),
    ;

    fn chromosome(&self) -> (r: &Crhomosome<G>)
        ensures
            r@ == self.genes_of(),
    ;
}

/// The fitness of each member of a population, in order.
pub open spec fn fitnesses<G, I: Individual<G>>(population: Seq<I>) -> Seq<u64> {
    population.map_values(|i: I| i.fitness_of())
}

} // verus!
