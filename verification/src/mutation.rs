//! Perturbation of a chromosome in place.
use vstd::prelude::*;
use crate::chromosome::Chromosome;

verus! {

/// A way to perturb a chromosome in place. A mutation may rewrite genes; it
/// never adds or removes one.
pub trait MutationMethod {
    /// Which genes this scheme can make of which. A scheme that is verified
    /// narrows this to what it does; left as it is, it admits every
    /// outcome.
    open spec fn can_turn(&self, before: Seq<u32>, after: Seq<u32>) -> bool {
        true
    }

    fn mutate(&self, rng: &mut rand::rngs::StdRng, child: &mut Chromosome)
        ensures
            final(child)@.len() == old(child)@.len(),
            self.can_turn(old(child)@, final(child)@),
    ;
}

/// Whether `bits` is the pattern of a single-precision number between zero
/// and one, both included. The patterns from that of zero to that of one
/// are exactly the numbers in that range, in order; negative zero counts as
/// zero; no other pattern (a negative number, a number above one, a
/// not-a-number) does.
pub open spec fn is_probability(bits: u32) -> bool {
    bits <= 0x3F80_0000 || bits == 0x8000_0000
}

/// Whether `bits` is the pattern of zero, of either sign.
pub open spec fn is_zero(bits: u32) -> bool {
    bits == 0 || bits == 0x8000_0000
}

/// The genes after one mutation pass with the given outcomes: a gene whose
/// outcome is `Some` takes the value in it, every other gene stays as it
/// was.
pub open spec fn mutated(genes: Seq<u32>, outcomes: Seq<Option<u32>>) -> Seq<u32> {
    Seq::new(
        genes.len(),
        |i: int|
            match outcomes[i] {
                Some(gene) => gene,
                None => genes[i],
            },
    )
}

/// Mutation that, gene by gene and with a given chance, adds a random
/// amount of either sign, scaled by a coefficient. Chance and coefficient
/// are held as bit patterns of single-precision numbers.
#[derive(Clone, Copy, Debug)]
pub struct GaussianMutation {
    chance: u32,
    coeff: u32,
}

impl GaussianMutation {
    /// The chance that a gene is mutated.
    pub closed spec fn spec_chance(&self) -> u32 {
        self.chance
    }

    /// The coefficient that scales a mutation.
    pub closed spec fn spec_coeff(&self) -> u32 {
        self.coeff
    }

    /// Whether `chance` may be given to `new`.
    pub fn accepts(chance: u32) -> (accepted: bool)
        ensures
            accepted == is_probability(chance),
    {
        chance <= 0x3F80_0000 || chance == 0x8000_0000
    }

    /// A mutation with the given chance, which must lie between zero and
    /// one, and the given coefficient.
    pub fn new(chance: u32, coeff: u32) -> (mutation: GaussianMutation)
        requires
            is_probability(chance),
        ensures
            mutation.spec_chance() == chance,
            mutation.spec_coeff() == coeff,
    {
        GaussianMutation { chance, coeff }
    }

    /// The chance that a gene is mutated.
    #[verifier::when_used_as_spec(spec_chance)]
    pub fn chance(&self) -> (chance: u32)
        ensures
            chance == self.spec_chance(),
            is_probability(chance),
    {
        proof {
            use_type_invariant(self);
        }
        self.chance
    }

    /// The coefficient that scales a mutation.
    #[verifier::when_used_as_spec(spec_coeff)]
    pub fn coeff(&self) -> (coeff: u32)
        ensures
            coeff == self.spec_coeff(),
    {
        self.coeff
    }

    #[verifier::type_invariant]
    spec fn in_range(&self) -> bool {
        is_probability(self.chance)
    }

    /// Applies the outcomes of one mutation pass to `child`: `outcomes`
    /// holds for each gene, in order, the perturbed gene where the mutation
    /// fired and `None` where it did not. A mutation whose chance is zero
    /// never fires, so it leaves `child` as it is whatever `outcomes` holds.
    pub fn apply(&self, child: &mut Chromosome, outcomes: &Vec<Option<u32>>)
        requires
            outcomes@.len() == old(child)@.len(),
        ensures
            final(child)@ == if is_zero(self.chance()) {
                old(child)@
            } else {
                mutated(old(child)@, outcomes@)
            },
            final(child)@.len() == old(child)@.len(),
    {
        if self.chance == 0 || self.chance == 0x8000_0000 {
            return ;
        }
        let n: usize = child.len();
        let mut genes: Vec<u32> = Vec::new();
        let mut i: usize = 0;
        while i < n
            invariant
                n == child@.len(),
                n == outcomes@.len(),
                i <= n,
                genes@.len() == i,
                forall|k: int| 0 <= k < i ==> genes@[k] == mutated(child@, outcomes@)[k],
            decreases n - i,
        {
            let gene: u32 = match outcomes[i] {
                Some(gene) => gene,
                None => child.index(i),
            };
            genes.push(gene);
            i += 1;
        }
        assert(genes@ =~= mutated(child@, outcomes@));
        *child = Chromosome::from_iter(genes);
    }
}

/// A pass in which no mutation fires leaves every gene as it was.
pub proof fn quiet_pass_changes_nothing(genes: Seq<u32>, outcomes: Seq<Option<u32>>)
    requires
        outcomes.len() == genes.len(),
        forall|i: int| 0 <= i < outcomes.len() ==> outcomes[i].is_none(),
    ensures
        mutated(genes, outcomes) == genes,
{
    assert(mutated(genes, outcomes) =~= genes);
}

/// A mutation pass touches only the genes on which it fired, and never
/// changes how many genes there are.
pub proof fn mutation_keeps_unfired_genes(genes: Seq<u32>, outcomes: Seq<Option<u32>>)
    requires
        outcomes.len() == genes.len(),
    ensures
        mutated(genes, outcomes).len() == genes.len(),
        forall|i: int|
            0 <= i < genes.len() && outcomes[i].is_none() ==> #[trigger] mutated(genes, outcomes)[i]
                == genes[i],
{
}

} // verus!
