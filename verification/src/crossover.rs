//! Crossover: how the chromosomes of two parents make the chromosome of a child.

use rand_chacha::ChaCha8Rng;
use vstd::prelude::*;

use crate::chromosome::Chromosome;
use crate::random::flip;

verus! {

/// A way to combine two parents of equal length into a child of that length.
pub trait CrossoverMethod {
    /// Whether the method may make `child` of the two parents. A method that
    /// states nothing admits every child.
    open spec fn may_produce(&self, parent_a: Seq<u32>, parent_b: Seq<u32>, child: Seq<u32>) -> bool {
        true
    }

    /// Makes a child of two parents of equal length.
    fn crossover(&self, rng: &mut ChaCha8Rng, parent_a: &Chromosome, parent_b: &Chromosome) -> (child:
        Chromosome)
        requires
            parent_a@.len() == parent_b@.len(),
        ensures
            child@.len() == parent_a@.len(),
            self.may_produce(parent_a@, parent_b@, child@),
    ;
}

/// The child that takes gene `i` from the first parent where `heads[i]` holds
/// and from the second parent where it does not.
pub open spec fn mix(parent_a: Seq<u32>, parent_b: Seq<u32>, heads: Seq<bool>) -> Seq<u32> {
    Seq::new(
        parent_a.len(),
        |i: int|
            if heads[i] {
                parent_a[i]
            } else {
                parent_b[i]
            },
    )
}

/// `child` has every gene from one of the two parents, at the same position.
pub open spec fn is_mix(parent_a: Seq<u32>, parent_b: Seq<u32>, child: Seq<u32>) -> bool {
    &&& child.len() == parent_a.len()
    &&& forall|i: int|
        0 <= i < child.len() ==> #[trigger] child[i] == parent_a[i] || child[i] == parent_b[i]
}

/// Uniform crossover: each gene of the child comes from the first or from the
/// second parent, as a fair coin decides, gene by gene.
#[derive(Clone, Copy, Debug)]
pub struct UniformCrossover;

impl UniformCrossover {
    /// The child that a given run of coin flips makes of two parents.
    pub fn combine(parent_a: &Chromosome, parent_b: &Chromosome, heads: &Vec<bool>) -> (child: Chromosome)
        requires
            parent_a@.len() == parent_b@.len(),
            heads@.len() == parent_a@.len(),
        ensures
            child@ == mix(parent_a@, parent_b@, heads@),
    {
        let mut genes: Vec<u32> = Vec::new();
        let mut i: usize = 0;
        while i < parent_a.len()
            invariant
                i <= parent_a@.len(),
                parent_a@.len() == parent_b@.len(),
                heads@.len() == parent_a@.len(),
                genes@ == mix(parent_a@, parent_b@, heads@).take(i as int),
            decreases parent_a@.len() - i,
        {
            let gene = if heads[i] {
                parent_a.get(i)
            } else {
                parent_b.get(i)
            };
            genes.push(gene);
            i += 1;
            assert(genes@ =~= mix(parent_a@, parent_b@, heads@).take(i as int));
        }
        assert(genes@ =~= mix(parent_a@, parent_b@, heads@));
        Chromosome::new(genes)
    }
}

impl CrossoverMethod for UniformCrossover {
    /// Every gene of the child is the gene of a parent at that position.
    open spec fn may_produce(&self, parent_a: Seq<u32>, parent_b: Seq<u32>, child: Seq<u32>) -> bool {
        is_mix(parent_a, parent_b, child)
    }

    fn crossover(&self, rng: &mut ChaCha8Rng, parent_a: &Chromosome, parent_b: &Chromosome) -> (child:
        Chromosome) {
        let mut heads: Vec<bool> = Vec::new();
        let mut i: usize = 0;
        while i < parent_a.len()
            invariant
                i <= parent_a@.len(),
                heads@.len() == i,
            decreases parent_a@.len() - i,
        {
            let coin = flip(rng);
            heads.push(coin);
            i += 1;
        }
        Self::combine(parent_a, parent_b, &heads)
    }
}

} // verus!
