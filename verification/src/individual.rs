//! What the genetic algorithm asks of a member of a population.
use vstd::prelude::*;
use crate::chromosome::Chromosome;

verus! {

/// A candidate solution: built from a chromosome, scored by a fitness, and
/// able to show its chromosome again.
pub trait Individual: Sized {
    /// The genes this individual carries. An implementation that is
    /// verified states them here; one that is not leaves this as it is, and
    /// is trusted to keep the contracts below for the genes it does carry.
    open spec fn genome(&self) -> Seq<u32> {
        arbitrary()
    }

    /// The fitness of this individual, as the bit pattern of a
    /// non-negative single-precision number. What holds of `genome` holds
    /// of this too.
    open spec fn score(&self) -> u32 {
        arbitrary()
    }

    /// Builds the individual that carries exactly the genes of
    /// `chromosome`.
    fn create(chromosome: Chromosome) -> (individual: Self)
        ensures
            individual.genome() == chromosome@,
    ;

    /// The fitness, as the bit pattern of a non-negative single-precision
    /// number.
    fn fitness(&self) -> (bits: u32)
        ensures
            bits == self.score(),
    ;

    /// The chromosome this individual was built from.
    fn chromosome(&self) -> (chromosome: &Chromosome)
        ensures
            chromosome@ == self.genome(),
    ;
}

/// Whether every member of `population` carries a genome of `length` genes.
pub open spec fn genomes_have_length<I: Individual>(population: Seq<I>, length: nat) -> bool {
    forall|i: int| 0 <= i < population.len() ==> (#[trigger] population[i]).genome().len() == length
}

} // verus!
