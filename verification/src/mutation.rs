//! Mutation: the random change that a child's chromosome undergoes.

use rand_chacha::ChaCha8Rng;
use vstd::prelude::*;

use crate::chromosome::Chromosome;
use crate::error::Error;
use crate::random::flip;
use crate::scalar::{is_probability, probability, ZERO};

verus! {

/// A way to change a chromosome at random. It changes genes, never their
/// number.
pub trait MutationMethod {
    /// Whether the method may turn `before` into `after`. A method that
    /// states nothing admits every outcome.
    open spec fn may_yield(&self, before: Seq<u32>, after: Seq<u32>) -> bool {
        true
    }

    /// Mutates `child` in place.
    fn mutate(&self, rng: &mut ChaCha8Rng, child: &mut Chromosome)
        ensures
            final(child)@.len() == old(child)@.len(),
            self.may_yield(old(child)@, final(child)@),
    ;
}

/// `perturb` can be called on every gene, whatever the sign and the
/// coefficient, with every chance that is a number between zero and one.
pub open spec fn perturbs_all<P: Fn(&mut ChaCha8Rng, u32, bool, u32, u32) -> u32>(perturb: P) -> bool {
    forall|rng: &mut ChaCha8Rng, gene: u32, negative: bool, chance: u32, coeff: u32|
        is_probability(chance) ==> #[trigger] perturb.requires((rng, gene, negative, chance, coeff))
}

/// `perturb` may turn the gene `before` into `after`, for some sign, under
/// the given chance and coefficient.
pub open spec fn perturbed<P: Fn(&mut ChaCha8Rng, u32, bool, u32, u32) -> u32>(
    perturb: P,
    chance: u32,
    coeff: u32,
    before: u32,
    after: u32,
) -> bool {
    exists|rng: &mut ChaCha8Rng, negative: bool| #[trigger]
        perturb.ensures((rng, before, negative, chance, coeff), after)
}

/// Mutation gene by gene: for each gene a fair coin picks a sign, and
/// `perturb` then decides, by the chance, whether the gene changes, and by
/// the sign and the coefficient, by how much. The chance is a number between
/// zero and one, and `perturb` can be called on every gene: no other
/// mutation of this kind can be made.
pub struct GaussianMutation<P: Fn(&mut ChaCha8Rng, u32, bool, u32, u32) -> u32> {
    chance: u32,
    coeff: u32,
    perturb: P,
}

impl<P: Fn(&mut ChaCha8Rng, u32, bool, u32, u32) -> u32> GaussianMutation<P> {
    #[verifier::type_invariant]
    spec fn sound(self) -> bool {
        is_probability(self.chance) && perturbs_all(self.perturb)
    }

    /// The pattern of the chance with which a gene changes.
    pub closed spec fn spec_chance(&self) -> u32 {
        self.chance
    }

    /// The pattern of the coefficient that scales a change.
    pub closed spec fn spec_coeff(&self) -> u32 {
        self.coeff
    }

    /// The function that changes a gene.
    pub closed spec fn spec_perturb(&self) -> P {
        self.perturb
    }

    /// What making a mutation may give: the mutation, where the chance is a
    /// number between zero and one, and a refusal where it is not.
    pub open spec fn made(chance: u32, coeff: u32, perturb: P, result: Result<Self, Error>) -> bool {
        match result {
            Ok(mutation) => {
                &&& is_probability(chance)
                &&& mutation.spec_chance() == chance
                &&& mutation.spec_coeff() == coeff
                &&& mutation.spec_perturb() == perturb
            },
            Err(error) => error == Error::InvalidMutationChance && !is_probability(chance),
        }
    }

    /// The mutation that changes a gene with the chance `chance`, by an
    /// amount that `coeff` scales, as `perturb` computes it.
    pub fn new(chance: u32, coeff: u32, perturb: P) -> (result: Result<Self, Error>)
        requires
            perturbs_all(perturb),
        ensures
            Self::made(chance, coeff, perturb, result),
    {
        if probability(chance) {
            Ok(GaussianMutation { chance, coeff, perturb })
        } else {
            Err(Error::InvalidMutationChance)
        }
    }

    /// The pattern of the chance with which a gene changes.
    pub fn chance(&self) -> (chance: u32)
        ensures
            chance == self.spec_chance(),
            is_probability(chance),
    {
        proof {
            use_type_invariant(self);
        }
        self.chance
    }

    /// The pattern of the coefficient that scales a change.
    pub fn coeff(&self) -> (coeff: u32)
        ensures
            coeff == self.spec_coeff(),
    {
        self.coeff
    }
}

/// Where the function that changes genes leaves every gene as it is, as it
/// does where the chance is zero or the coefficient is zero, the mutation
/// leaves the chromosome as it is.
pub proof fn lemma_idle_mutation<P: Fn(&mut ChaCha8Rng, u32, bool, u32, u32) -> u32>(
    mutation: GaussianMutation<P>,
    before: Seq<u32>,
    after: Seq<u32>,
)
    requires
        forall|gene: u32, changed: u32| #[trigger]
            perturbed(mutation.spec_perturb(), mutation.spec_chance(), mutation.spec_coeff(), gene, changed)
                ==> changed == gene,
        mutation.may_yield(before, after),
    ensures
        after == before,
{
    assert(after =~= before);
}

/// With a chance of zero the chromosome stays as it is, whatever the
/// coefficient, where `perturb` leaves a gene alone under a chance of zero.
pub proof fn lemma_zero_chance_changes_nothing<P: Fn(&mut ChaCha8Rng, u32, bool, u32, u32) -> u32>(
    mutation: GaussianMutation<P>,
    before: Seq<u32>,
    after: Seq<u32>,
)
    requires
        mutation.spec_chance() == ZERO,
        forall|rng: &mut ChaCha8Rng, gene: u32, negative: bool, coeff: u32, changed: u32| #[trigger]
            mutation.spec_perturb().ensures((rng, gene, negative, ZERO, coeff), changed) ==> changed == gene,
        mutation.may_yield(before, after),
    ensures
        after == before,
{
    lemma_idle_mutation(mutation, before, after);
}

/// With a coefficient of zero the chromosome stays as it is, whatever the
/// chance, where `perturb` leaves a gene alone under a coefficient of zero.
pub proof fn lemma_zero_coefficient_changes_nothing<P: Fn(&mut ChaCha8Rng, u32, bool, u32, u32) -> u32>(
    mutation: GaussianMutation<P>,
    before: Seq<u32>,
    after: Seq<u32>,
)
    requires
        mutation.spec_coeff() == ZERO,
        forall|rng: &mut ChaCha8Rng, gene: u32, negative: bool, chance: u32, changed: u32| #[trigger]
            mutation.spec_perturb().ensures((rng, gene, negative, chance, ZERO), changed) ==> changed == gene,
        mutation.may_yield(before, after),
    ensures
        after == before,
{
    lemma_idle_mutation(mutation, before, after);
}

impl<P: Fn(&mut ChaCha8Rng, u32, bool, u32, u32) -> u32> MutationMethod for GaussianMutation<P> {
    /// Every gene is what the function that changes genes made of the gene
    /// that stood there.
    open spec fn may_yield(&self, before: Seq<u32>, after: Seq<u32>) -> bool {
        &&& after.len() == before.len()
        &&& forall|i: int|
            0 <= i < before.len() ==> perturbed(
                self.spec_perturb(),
                self.spec_chance(),
                self.spec_coeff(),
                before[i],
                #[trigger] after[i],
            )
    }

    fn mutate(&self, rng: &mut ChaCha8Rng, child: &mut Chromosome) {
        proof {
            use_type_invariant(self);
        }
        let ghost before = child@;
        let mut index: usize = 0;
        while index < child.len()
            invariant
                index <= child@.len(),
                child@.len() == before.len(),
                is_probability(self.spec_chance()),
                perturbs_all(self.spec_perturb()),
                forall|i: int| index <= i < before.len() ==> #[trigger] child@[i] == before[i],
                forall|i: int|
                    0 <= i < index ==> perturbed(
                        self.spec_perturb(),
                        self.spec_chance(),
                        self.spec_coeff(),
                        before[i],
                        #[trigger] child@[i],
                    ),
            decreases child@.len() - index,
        {
            let negative = flip(rng);
            let gene = (self.perturb)(rng, child.get(index), negative, self.chance, self.coeff);
            child.set(index, gene);
            index += 1;
        }
    }
}

} // verus!
