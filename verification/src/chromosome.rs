//! The evolvable encoding of an individual: a flat sequence of genes.

use vstd::prelude::*;

verus! {

/// An ordered sequence of genes, each the pattern of a single-precision number.
#[derive(Clone, Debug)]
pub struct Chromosome {
    genes: Vec<u32>,
}

impl View for Chromosome {
    type V = Seq<u32>;

    closed spec fn view(&self) -> Seq<u32> {
        self.genes@
    }
}

impl Chromosome {
    /// The chromosome that holds `genes` in the order given.
    pub fn new(genes: Vec<u32>) -> (chromosome: Chromosome)
        ensures
            chromosome@ == genes@,
    {
        Chromosome { genes }
    }

    /// The number of genes.
    pub fn len(&self) -> (len: usize)
        ensures
            len == self@.len(),
    {
        self.genes.len()
    }

    /// The gene at `index`.
    pub fn get(&self, index: usize) -> (gene: u32)
        requires
            index < self@.len(),
        ensures
            gene == self@[index as int],
    {
        self.genes[index]
    }

    /// Replaces the gene at `index`.
    pub fn set(&mut self, index: usize, gene: u32)
        requires
            index < old(self)@.len(),
        ensures
            final(self)@ == old(self)@.update(index as int, gene),
    {
        self.genes[index] = gene;
    }

    /// An iterator over the genes, in order.
    pub fn iter(&self) -> (genes: core::slice::Iter<'_, u32>)
        ensures
            vstd::std_specs::slice::into_iter_elts(genes) == self@,
    {
        let slice = self.genes.as_slice();
        let genes = slice.iter();
        proof {
            vstd::std_specs::slice::axiom_spec_slice_iter(slice);
            assert(vstd::std_specs::slice::into_iter_elts(genes) =~= self@);
        }
        genes
    }

    /// The genes in order.
    pub fn genes(&self) -> (genes: &Vec<u32>)
        ensures
            genes@ == self@,
    {
        &self.genes
    }

    /// Gives up the chromosome for its genes.
    pub fn into_genes(self) -> (genes: Vec<u32>)
        ensures
            genes@ == self@,
    {
        self.genes
    }

    /// A copy of the chromosome.
    pub fn duplicate(&self) -> (copy: Chromosome)
        ensures
            copy@ == self@,
    {
        Chromosome { genes: self.genes.clone() }
    }
}

} // verus!
