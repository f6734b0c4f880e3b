//! The flat genome: an ordered, fixed-length sequence of genes.
use vstd::prelude::*;

verus! {

/// A flat, ordered sequence of genes, each the bit pattern of a
/// single-precision number.
pub struct Chromosome {
    genes: Vec<u32>,
}

impl View for Chromosome {
    type V = Seq<u32>;

    closed spec fn view(&self) -> Seq<u32> {
        self.genes@
    }
}

impl Chromosome {
    /// The number of genes.
    pub fn len(&self) -> (n: usize)
        ensures
            n == self@.len(),
    {
        self.genes.len()
    }

    /// The genes in order, for a forward read-only pass.
    pub fn iter(&self) -> (genes: &[u32])
        ensures
            genes@ == self@,
    {
        self.genes.as_slice()
    }

    /// The genes in order, for one in-place pass. The pass may rewrite any
    /// gene but cannot change how many there are.
    pub fn iter_mut(&mut self) -> (genes: &mut [u32])
        ensures
            genes@ == old(self)@,
            final(self)@ == final(genes)@,
    {
        self.genes.as_mut_slice()
    }

    /// The gene at `index`.
    pub fn index(&self, index: usize) -> (gene: u32)
        requires
            index < self@.len(),
        ensures
            gene == self@[index as int],
    {
        self.genes[index]
    }

    /// Collects a sequence of genes into a chromosome, keeping their order.
    pub fn from_iter(genes: Vec<u32>) -> (chromosome: Chromosome)
        ensures
            chromosome@ == genes@,
    {
        Chromosome { genes }
    }

    /// Decomposes the chromosome into its genes, in order.
    pub fn into_iter(self) -> (genes: Vec<u32>)
        ensures
            genes@ == self@,
    {
        self.genes
    }
}

/// Collecting genes into a chromosome and decomposing it again gives the
/// same genes back, each in its place.
pub proof fn collecting_then_decomposing_is_identity(
    genes: Vec<u32>,
    chromosome: Chromosome,
    back: Vec<u32>,
)
    requires
        call_ensures(Chromosome::from_iter, (genes,), chromosome),
        call_ensures(Chromosome::into_iter, (chromosome,), back),
    ensures
        back@ == genes@,
        back@.len() == genes@.len(),
        forall|i: int| 0 <= i < genes@.len() ==> back@[i] == genes@[i],
{
}

} // verus!
