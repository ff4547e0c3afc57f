//! The genotype-to-phenotype adapter: an animal's brain is a network whose
//! shape follows from how many cells its eye has.
use vstd::prelude::*;
use crate::chromosome::Crhomosome;
use crate::network::{DecodeError, LayerTopology, Network, decoded, weight_count};

verus! {

/// The brain's shape for an eye of `cells` cells: one input per cell, a
/// hidden layer and an output layer of twice as many neurons each.
pub open spec fn brain_topology(cells: nat) -> Seq<LayerTopology> {
    seq![
        LayerTopology { neurons: cells as usize },
        LayerTopology { neurons: (2 * cells) as usize },
        LayerTopology { neurons: (2 * cells) as usize },
    ]
}

/// How many genes encode a brain for an eye of `cells` cells.
pub open spec fn brain_weight_count(cells: nat) -> int {
    weight_count(brain_topology(cells))
}

/// A brain for an eye of `cells` cells holds `2c(1 + c) + 2c(1 + 2c)`
/// parameters, where `c` is the cell count.
pub proof fn lemma_brain_weight_count(cells: nat)
    requires
        cells <= usize::MAX / 2,
    ensures
        brain_weight_count(cells) == (2 * cells) * (1 + cells) + (2 * cells) * (1 + 2 * cells),
        brain_weight_count(cells) >= 0,
{
    let t = brain_topology(cells);
    assert(crate::network::prefix_weights(t, 0) == 0);
    assert(crate::network::prefix_weights(t, 1) == crate::network::layer_weights(t, 0));
    assert(crate::network::prefix_weights(t, 2) == crate::network::layer_weights(t, 0)
        + crate::network::layer_weights(t, 1));
    assert((2 * cells) * (1 + cells) + (2 * cells) * (1 + 2 * cells) >= 0) by (nonlinear_arith);
}

/// A network used as an animal's brain.
pub struct Brain<W> {
    nn: Network<W>,
}

impl<W> Brain<W> {
    pub closed spec fn spec_network(&self) -> Network<W> {
        self.nn
    }
}

impl<W: Copy> Brain<W> {
    /// The shape of a brain for an eye of `cells` cells.
    pub fn topology(cells: usize) -> (r: [LayerTopology; 3])
        requires
            cells <= usize::MAX / 2,
        ensures
            r@ == brain_topology(cells as nat),
    {
        let r = [
            LayerTopology { neurons: cells },
            LayerTopology { neurons: 2 * cells },
            LayerTopology { neurons: 2 * cells },
        ];
        assert(r@ == brain_topology(cells as nat));
        r
    }

    /// Decodes a chromosome into the brain it encodes.
    pub fn from_crhomosome(chromosome: Crhomosome<W>, cells: usize) -> (r: Result<Brain<W>, DecodeError>)
        requires
            cells <= usize::MAX / 2,
        ensures
            chromosome@.len() < brain_weight_count(cells as nat) <==> r == Err::<Brain<W>, DecodeError>(
                DecodeError::TooFewWeights,
            ),
            chromosome@.len() > brain_weight_count(cells as nat) <==> r == Err::<Brain<W>, DecodeError>(
                DecodeError::TooManyWeights,
            ),
            r matches Ok(b) ==> b.spec_network().shaped(brain_topology(cells as nat))
                && b.spec_network().flat() == chromosome@,
    {
        let topology = Self::topology(cells);
        let genes = chromosome.into_genes();
        let decoded_network = Network::from_weights(topology.as_slice(), genes);
        proof {
            assert(decoded(brain_topology(cells as nat), genes@, decoded_network));
        }
        match decoded_network {
            Ok(nn) => Ok(Brain { nn }),
            Err(e) => Err(e),
        }
    }

    /// Encodes the brain as a chromosome: its network's weights in
    /// canonical order.
    pub fn as_crhomosome(&self) -> (r: Crhomosome<W>)
        ensures
            r@ == self.spec_network().flat(),
    {
        Crhomosome::new(self.nn.weights())
    }

    pub fn network(&self) -> (r: &Network<W>)
        ensures
            *r == self.spec_network(),
    {
        &self.nn
    }
}

} // verus!
