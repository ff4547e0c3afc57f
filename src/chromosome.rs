//! The genotype: a flat ordered sequence of genes.
use vstd::prelude::*;

verus! {

/// A flat ordered sequence of genes.
#[derive(Debug)]
pub struct Crhomosome<G> {
    pub genes: Vec<G>,
}

impl<G> View for Crhomosome<G> {
    type V = Seq<G>;

    open spec fn view(&self) -> Seq<G> {
        self.genes@
    }
}

impl<G: Copy> Crhomosome<G> {
    /// Wraps the given genes, in order.
    pub fn new(genes: Vec<G>) -> (r: Self)
        ensures
            r@ == genes@,
    {
        Crhomosome { genes }
    }

    pub fn len(&self) -> (r: usize)
        ensures
            r == self@.len(),
    {
        self.genes.len()
    }

    /// The gene at `index`.
    pub fn get(&self, index: usize) -> (r: G)
        requires
            index < self@.len(),
        ensures
            r == self@[index as int],
    {
        self.genes[index]
    }

    /// The genes, in order.
    pub fn genes(&self) -> (r: &Vec<G>)
        ensures
            r@ == self@,
    {
        &self.genes
    }

    /// Walks the genes in order.
    pub fn iter(&self) -> (r: std::slice::Iter<'_, G>)
        ensures
            vstd::std_specs::slice::into_iter_elts(r) == self@,
    {
        let r = self.genes.as_slice().iter();
        proof {
            assert(vstd::std_specs::iter::IteratorSpec::remaining(&r).unref() =~= self@);
        }
        r
    }

    /// Gives up the chromosome for its genes.
    pub fn into_genes(self) -> (r: Vec<G>)
        ensures
            r@ == self@,
    {
        self.genes
    }
}

} // verus!
