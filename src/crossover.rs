//! Recombination of two parent chromosomes into a child.
use vstd::prelude::*;
use crate::chromosome::Crhomosome;
use crate::random::fair_coin;

verus! {

/// A way of breeding one child chromosome from two parents of equal length.
pub trait CrossoverMethod<G: Copy> {
    /// Whether `child` is an outcome that crossing `a` with `b` allows.
    spec fn crosses_to(&self, a: Seq<G>, b: Seq<G>, child: Seq<G>) -> bool;

    fn crossover(
        &self,
        rng: &mut rand_chacha::ChaCha8Rng,
        parent_a: &Crhomosome<G>,
        parent_b: &Crhomosome<G>,
    ) -> (r: Crhomosome<G>)
        requires
            parent_a@.len() == parent_b@.len(),
        ensures
            r@.len() == parent_a@.len(),
            self.crosses_to(parent_a@, parent_b@, r@),
    ;
}

/// Each gene of a child is one parent's gene at that place.
pub open spec fn genes_from_parents<G>(child: Seq<G>, a: Seq<G>, b: Seq<G>) -> bool {
    &&& child.len() == a.len()
    &&& child.len() == b.len()
    &&& forall|i: int| 0 <= i < child.len() ==> child[i] == a[i] || child[i] == b[i]
}

/// Uniform crossover: one fair coin per gene picks the parent it comes from.
pub struct UniformCrossover;

/// The child that a run of coin flips makes: where the flip at a place
/// came up true, the gene there is parent A's, otherwise parent B's.
pub open spec fn uniform_child<G>(coins: Seq<bool>, a: Seq<G>, b: Seq<G>) -> Seq<G> {
    Seq::new(coins.len(), |i: int| if coins[i] { a[i] } else { b[i] })
}

impl UniformCrossover {
    /// Builds the child that the given coin flips, one per gene, select.
    pub fn combine<G: Copy>(coins: &Vec<bool>, parent_a: &Crhomosome<G>, parent_b: &Crhomosome<G>) -> (r:
        Crhomosome<G>)
        requires
            parent_a@.len() == parent_b@.len(),
            coins@.len() == parent_a@.len(),
        ensures
            r@ == uniform_child(coins@, parent_a@, parent_b@),
    {
        let n = coins.len();
        let mut genes: Vec<G> = Vec::with_capacity(n);
        let mut i: usize = 0;
        while i < n
            invariant
                n == coins@.len(),
                n == parent_a@.len(),
                n == parent_b@.len(),
                i <= n,
                genes@ == uniform_child(coins@, parent_a@, parent_b@).subrange(0, i as int),
            decreases n - i,
        {
            let gene = if coins[i] {
                parent_a.get(i)
            } else {
                parent_b.get(i)
            };
            genes.push(gene);
            i = i + 1;
        }
        assert(genes@ == uniform_child(coins@, parent_a@, parent_b@));
        Crhomosome::new(genes)
    }
}

impl<G: Copy> CrossoverMethod<G> for UniformCrossover {
    open spec fn crosses_to(&self, a: Seq<G>, b: Seq<G>, child: Seq<G>) -> bool {
        exists|coins: Seq<bool>| coins.len() == a.len() && child == #[trigger] uniform_child(coins, a, b)
    }

    /// Flips one fair coin per gene, in gene order, then combines.
    fn crossover(
        &self,
        rng: &mut rand_chacha::ChaCha8Rng,
        parent_a: &Crhomosome<G>,
        parent_b: &Crhomosome<G>,
    ) -> (r: Crhomosome<G>)
        ensures
            genes_from_parents(r@, parent_a@, parent_b@),
            exists|coins: Seq<bool>| coins.len() == parent_a@.len()
                && r@ == uniform_child(coins, parent_a@, parent_b@),
    {
        let n = parent_a.len();
        let mut coins: Vec<bool> = Vec::with_capacity(n);
        let mut i: usize = 0;
        while i < n
            invariant
                n == parent_a@.len(),
                i <= n,
                coins@.len() == i,
            decreases n - i,
        {
            coins.push(fair_coin(rng));
            i = i + 1;
        }
        Self::combine(&coins, parent_a, parent_b)
    }
}

} // verus!
