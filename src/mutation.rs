//! Random perturbation of a chromosome, gene by gene.
use vstd::prelude::*;
use crate::chromosome::Crhomosome;

verus! {

/// A way of mutating a chromosome in place. An implementation decides the
/// fate of one gene at a time; the chromosome is walked in order, each gene
/// handed to `mutate_gene` once and the result stored at its place, so the
/// draws come from the stream in gene order and the length never changes.
pub trait MutationMethod<G: Copy>: Sized {
    /// Whether `after` is an outcome that mutating the gene `before` allows.
    spec fn mutates_to(&self, before: G, after: G) -> bool;

    fn mutate_gene(&self, rng: &mut rand_chacha::ChaCha8Rng, gene: G) -> (r: G)
        ensures
            self.mutates_to(gene, r),
    ;

    fn mutate(&self, rng: &mut rand_chacha::ChaCha8Rng, child: &mut Crhomosome<G>)
        ensures
            final(child)@.len() == old(child)@.len(),
            forall|k: int|
                0 <= k < old(child)@.len() ==> self.mutates_to(old(child)@[k], #[trigger] final(child)@[k]),
    {
        let ghost start = child@;
        let n = child.genes.len();
        let mut i: usize = 0;
        while i < n
            invariant
                start.len() == n,
                child@.len() == n,
                i <= n,
                forall|k: int| 0 <= k < i ==> self.mutates_to(start[k], #[trigger] child@[k]),
                forall|k: int| i <= k < n ==> #[trigger] child@[k] == start[k],
            decreases n - i,
        {
            let gene = child.genes[i];
            let changed = self.mutate_gene(rng, gene);
            child.genes.set(i, changed);
            i = i + 1;
        }
    }
}

/// `after` is `before` with every gene, in place, mutated as `m` allows.
pub open spec fn mutated<G: Copy, M: MutationMethod<G>>(m: M, before: Seq<G>, after: Seq<G>) -> bool {
    &&& after.len() == before.len()
    &&& forall|k: int| 0 <= k < before.len() ==> m.mutates_to(before[k], #[trigger] after[k])
}

} // verus!
