//! The generational step.
use vstd::prelude::*;
use crate::chromosome::Chromosome;
use crate::crossover::CrossoverMethod;
use crate::individual::{genomes_have_length, Individual};
use crate::mutation::MutationMethod;
use crate::selection::SelectionMethod;

verus! {

/// One selection scheme, one crossover scheme and one mutation scheme, put
/// together to breed the next generation from a population.
pub struct GeneticAlgorithm<S, C, M> {
    selection_method: S,
    crossover_method: C,
    mutation_method: M,
}

impl<S: SelectionMethod, C: CrossoverMethod, M: MutationMethod> GeneticAlgorithm<S, C, M> {
    /// The selection scheme in use.
    pub closed spec fn selection(&self) -> S {
        self.selection_method
    }

    /// The crossover scheme in use.
    pub closed spec fn crossover(&self) -> C {
        self.crossover_method
    }

    /// The mutation scheme in use.
    pub closed spec fn mutation(&self) -> M {
        self.mutation_method
    }

    /// Puts the three schemes together.
    pub fn new(selection_method: S, crossover_method: C, mutation_method: M) -> (algorithm: Self)
        ensures
            algorithm.selection() == selection_method,
            algorithm.crossover() == crossover_method,
            algorithm.mutation() == mutation_method,
    {
        GeneticAlgorithm { selection_method, crossover_method, mutation_method }
    }

    /// Whether `child` can come of the members at `a` and `b` of
    /// `population`: `crossed` is a chromosome that the crossover scheme
    /// can give to those two parents, and the child carries what the
    /// mutation scheme can make of it.
    pub open spec fn bred_from<I: Individual>(
        &self,
        population: Seq<I>,
        a: int,
        b: int,
        crossed: Seq<u32>,
        child: I,
    ) -> bool {
        &&& 0 <= a < population.len()
        &&& 0 <= b < population.len()
        &&& crossed.len() == population[a].genome().len()
        &&& self.crossover().can_yield(population[a].genome(), population[b].genome(), crossed)
        &&& child.genome().len() == crossed.len()
        &&& self.mutation().can_turn(crossed, child.genome())
    }

    /// Whether `child` can come of some two members of `population`.
    pub open spec fn bred<I: Individual>(&self, population: Seq<I>, child: I) -> bool {
        exists|a: int, b: int, crossed: Seq<u32>|
            #![trigger self.bred_from(population, a, b, crossed, child)]
            self.bred_from(population, a, b, crossed, child)
    }

    /// Breeds one child from two parents picked out of `population`: the
    /// parents' chromosomes are crossed, the child chromosome is mutated,
    /// and an individual is built from it.
    pub fn breed<I: Individual>(&self, rng: &mut rand::rngs::StdRng, population: &[I]) -> (child: I)
        requires
            population@.len() > 0,
            genomes_have_length(population@, population@[0].genome().len()),
        ensures
            child.genome().len() == population@[0].genome().len(),
            self.bred(population@, child),
    {
        let first = self.selection_method.select(rng, population);
        let second = self.selection_method.select(rng, population);
        let ghost a = population@.index_of(*first);
        let ghost b = population@.index_of(*second);
        let parent_a = first.chromosome();
        let parent_b = second.chromosome();
        let mut chromosome: Chromosome = self.crossover_method.crossover(rng, parent_a, parent_b);
        let ghost crossed = chromosome@;
        self.mutation_method.mutate(rng, &mut chromosome);
        let child = I::create(chromosome);
        assert(self.bred_from(population@, a, b, crossed, child));
        child
    }

    /// Breeds the next generation: as many children as `population` has
    /// members, each from two parents picked out of `population`, and each
    /// with a genome as long as theirs.
    pub fn evolve<I: Individual>(&self, rng: &mut rand::rngs::StdRng, population: &[I]) -> (next:
        Vec<I>)
        requires
            population@.len() > 0,
            genomes_have_length(population@, population@[0].genome().len()),
        ensures
            next@.len() == population@.len(),
            genomes_have_length(next@, population@[0].genome().len()),
            forall|slot: int|
                0 <= slot < next@.len() ==> self.bred(population@, #[trigger] next@[slot]),
    {
        let size: usize = population.len();
        let mut next: Vec<I> = Vec::new();
        let mut slot: usize = 0;
        while slot < size
            invariant
                size == population@.len(),
                size > 0,
                slot <= size,
                next@.len() == slot,
                genomes_have_length(population@, population@[0].genome().len()),
                genomes_have_length(next@, population@[0].genome().len()),
                forall|k: int|
                    0 <= k < next@.len() ==> self.bred(population@, #[trigger] next@[k]),
            decreases size - slot,
        {
            let child = self.breed(rng, population);
            next.push(child);
            slot += 1;
        }
        next
    }
}

} // verus!
