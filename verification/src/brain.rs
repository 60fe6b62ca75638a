//! The brain of an animal: the network that turns what the eye sees into a
//! change of speed and of heading.

use rand_chacha::ChaCha8Rng;
use vstd::prelude::*;

use crate::chromosome::Chromosome;
use crate::error::Error;
use crate::eye::Eye;
use crate::random::draws_always;
use crate::network::{
    network_drawn, network_genes, network_wf, parameter_count, shape, sizes, valid_sizes, LayerTopology,
    Network, NetworkView,
};

verus! {

/// The layer sizes of the brain behind an eye of `cells` cells: one input per
/// cell, a hidden layer of twice that size, and two outputs.
pub open spec fn brain_sizes(cells: nat) -> Seq<nat> {
    seq![cells, 2 * cells, 2]
}

/// The network of an animal.
#[derive(Clone, Debug)]
pub struct Brain {
    nn: Network,
}

impl View for Brain {
    type V = NetworkView;

    closed spec fn view(&self) -> NetworkView {
        self.nn@
    }
}

impl Brain {
    /// The brain is a well-formed network of the shape that `eye` calls for.
    pub open spec fn fits(&self, eye: Eye) -> bool {
        network_wf(self@) && shape(self@) == brain_sizes(eye.spec_cells() as nat)
    }

    /// What asking for the topology of a brain may give: the three layer
    /// sizes, or a refusal where twice the number of cells is beyond what a
    /// `usize` holds.
    pub open spec fn planned(eye: Eye, result: Result<Vec<LayerTopology>, Error>) -> bool {
        match result {
            Ok(layers) => sizes(layers@) == brain_sizes(eye.spec_cells() as nat) && valid_sizes(sizes(layers@)),
            Err(error) => error == Error::InvalidTopology && 2 * eye.spec_cells() > usize::MAX,
        }
    }

    /// What building a brain may give: a brain that fits the eye, or the
    /// reason why there is none.
    pub open spec fn built(eye: Eye, genes: Seq<u32>, result: Result<Brain, Error>) -> bool {
        match result {
            Ok(brain) => {
                &&& 2 * eye.spec_cells() <= usize::MAX
                &&& genes.len() == parameter_count(brain_sizes(eye.spec_cells() as nat))
                &&& brain.fits(eye)
                &&& network_genes(brain@) == genes
            },
            Err(error) => if 2 * eye.spec_cells() > usize::MAX {
                error == Error::InvalidTopology
            } else {
                error == Error::EncodingMismatch && genes.len() != parameter_count(
                    brain_sizes(eye.spec_cells() as nat),
                )
            },
        }
    }

    /// What building a brain of random parameters may give: a brain that
    /// fits the eye, with parameters that `draw` gave, or a refusal where
    /// twice the number of cells is beyond what a `usize` holds.
    pub open spec fn drawn<D: Fn(&mut ChaCha8Rng) -> u32>(draw: D, eye: Eye, result: Result<Brain, Error>) -> bool {
        match result {
            Ok(brain) => 2 * eye.spec_cells() <= usize::MAX && brain.fits(eye) && network_drawn(draw, brain@),
            Err(error) => error == Error::InvalidTopology && 2 * eye.spec_cells() > usize::MAX,
        }
    }

    /// The topology of the brain behind `eye`.
    pub fn topology(eye: &Eye) -> (result: Result<Vec<LayerTopology>, Error>)
        ensures
            Self::planned(*eye, result),
    {
        let cells = eye.cells();
        match cells.checked_mul(2) {
            Some(hidden) => {
                let mut layers: Vec<LayerTopology> = Vec::new();
                layers.push(LayerTopology { neurons: cells });
                layers.push(LayerTopology { neurons: hidden });
                layers.push(LayerTopology { neurons: 2 });
                assert(sizes(layers@) =~= brain_sizes(cells as nat));
                Ok(layers)
            },
            None => Err(Error::InvalidTopology),
        }
    }

    /// A brain behind `eye` whose weights and biases are drawn with `draw`.
    pub fn random<D: Fn(&mut ChaCha8Rng) -> u32>(rng: &mut ChaCha8Rng, draw: &D, eye: &Eye) -> (result: Result<
        Brain,
        Error,
    >)
        requires
            draws_always(*draw),
        ensures
            Self::drawn(*draw, *eye, result),
    {
        match Self::topology(eye) {
            Ok(layers) => match Network::random(rng, draw, layers.as_slice()) {
                Ok(nn) => Ok(Brain { nn }),
                Err(error) => Err(error),
            },
            Err(error) => Err(error),
        }
    }

    /// The brain behind `eye` that has the genes of `chromosome`.
    pub fn from_chromosome(chromosome: Chromosome, eye: &Eye) -> (result: Result<Brain, Error>)
        ensures
            Self::built(*eye, chromosome@, result),
    {
        match Self::topology(eye) {
            Ok(layers) => match Network::from_chromosome(layers.as_slice(), chromosome) {
                Ok(nn) => Ok(Brain { nn }),
                Err(error) => Err(error),
            },
            Err(error) => Err(error),
        }
    }

    /// The genes of the brain.
    pub fn as_chromosome(&self) -> (chromosome: Chromosome)
        ensures
            chromosome@ == network_genes(self@),
    {
        self.nn.to_chromosome()
    }

    /// The network of the brain.
    pub fn network(&self) -> (network: &Network)
        ensures
            network@ == self@,
    {
        &self.nn
    }
}

} // verus!
