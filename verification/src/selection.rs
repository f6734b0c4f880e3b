//! Choice of a parent from a population.
use vstd::prelude::*;
use crate::individual::Individual;
use crate::random::uniform_index;

verus! {

/// A way to pick one parent from a population that is not empty.
pub trait SelectionMethod {
    fn select<'a, I: Individual>(&self, rng: &mut rand::rngs::StdRng, population: &'a [I]) -> (chosen:
        &'a I)
        requires
            population@.len() > 0,
        ensures
            population@.contains(*chosen),
    ;
}

/// Whether `bits` is the pattern of a fitness that can weigh a draw: a
/// finite single-precision number that is not negative (negative zero
/// counts as zero).
pub open spec fn is_weight(bits: u32) -> bool {
    bits <= 0x7F7F_FFFF || bits == 0x8000_0000
}

/// Whether `bits` is the pattern of a fitness of zero.
pub open spec fn is_zero_weight(bits: u32) -> bool {
    bits == 0 || bits == 0x8000_0000
}

/// How fitness-proportionate selection has to draw from a population.
#[derive(Clone, Copy, Debug, PartialEq, Eq, Structural)]
pub enum Wheel {
    /// Some member has a fitness that cannot weigh a draw.
    Unusable,
    /// Every fitness is zero: each member is as likely as any other.
    Uniform,
    /// Every fitness can weigh a draw and one at least is above zero: each
    /// member is drawn in proportion to its fitness.
    Weighted,
}

/// The draw that fitness-proportionate selection owes for given fitnesses.
pub open spec fn wheel_of(fitness: Seq<u32>) -> Wheel {
    if exists|i: int| 0 <= i < fitness.len() && !is_weight(#[trigger] fitness[i]) {
        Wheel::Unusable
    } else if forall|i: int| 0 <= i < fitness.len() ==> is_zero_weight(#[trigger] fitness[i]) {
        Wheel::Uniform
    } else {
        Wheel::Weighted
    }
}

/// The fitness of each member of a population, in order.
pub open spec fn scores<I: Individual>(population: Seq<I>) -> Seq<u32> {
    Seq::new(population.len(), |i: int| population[i].score())
}

/// Fitness-proportionate ("roulette wheel") selection.
#[derive(Clone, Copy, Debug)]
pub struct RouletteWheelSelection;

impl RouletteWheelSelection {
    /// Decides how to draw from `population`.
    pub fn wheel<I: Individual>(population: &[I]) -> (wheel: Wheel)
        ensures
            wheel == wheel_of(scores(population@)),
    {
        let ghost fitness = scores(population@);
        let n: usize = population.len();
        let mut all_zero: bool = true;
        let mut i: usize = 0;
        while i < n
            invariant
                fitness == scores(population@),
                n == population@.len(),
                i <= n,
                forall|k: int| 0 <= k < i ==> is_weight(#[trigger] fitness[k]),
                all_zero == forall|k: int| 0 <= k < i ==> is_zero_weight(#[trigger] fitness[k]),
            decreases n - i,
        {
            let bits: u32 = population[i].fitness();
            assert(bits == fitness[i as int]);
            if !(bits <= 0x7F7F_FFFF || bits == 0x8000_0000) {
                return Wheel::Unusable;
            }
            if !(bits == 0 || bits == 0x8000_0000) {
                all_zero = false;
            }
            i += 1;
        }
        if all_zero {
            Wheel::Uniform
        } else {
            Wheel::Weighted
        }
    }

    /// Picks a member of `population` with a uniform draw from `rng`: the
    /// draw owed where every fitness is zero.
    pub fn select_uniform<'a, I: Individual>(
        rng: &mut rand::rngs::StdRng,
        population: &'a [I],
    ) -> (chosen: &'a I)
        requires
            population@.len() > 0,
        ensures
            population@.contains(*chosen),
    {
        let index: usize = uniform_index(rng, population.len());
        Self::member(population, index)
    }

    /// The member of `population` that a draw of `index` picks.
    pub fn member<'a, I: Individual>(population: &'a [I], index: usize) -> (chosen: &'a I)
        requires
            index < population@.len(),
        ensures
            *chosen == population@[index as int],
            population@.contains(*chosen),
    {
        &population[index]
    }
}

} // verus!
