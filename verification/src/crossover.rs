//! Recombination of two parent chromosomes into one child.
use vstd::prelude::*;
use crate::chromosome::Chromosome;
use crate::random::fair_coin;

verus! {

/// A recombination scheme: from two parents of one length, a child of that
/// length.
pub trait CrossoverMethod {
    /// Which children this scheme can give to which parents. A scheme that
    /// is verified narrows this to what it does; left as it is, it admits
    /// every child.
    open spec fn can_yield(&self, parent_a: Seq<u32>, parent_b: Seq<u32>, child: Seq<u32>) -> bool {
        true
    }

    fn crossover(
        &self,
        rng: &mut rand::rngs::StdRng,
        parent_a: &Chromosome,
        parent_b: &Chromosome,
    ) -> (child: Chromosome)
        requires
            parent_a@.len() == parent_b@.len(),
        ensures
            child@.len() == parent_a@.len(),
            self.can_yield(parent_a@, parent_b@, child@),
    ;
}

/// Whether `child` takes each of its genes from one of the two parents at
/// the same position.
pub open spec fn recombines(parent_a: Seq<u32>, parent_b: Seq<u32>, child: Seq<u32>) -> bool {
    &&& child.len() == parent_a.len()
    &&& forall|i: int|
        0 <= i < child.len() ==> child[i] == parent_a[i] || child[i] == parent_b[i]
}

/// The child that uniform crossover builds from given coin flips: at each
/// position the gene of `parent_a` where the coin shows heads, that of
/// `parent_b` where it shows tails.
pub open spec fn uniform_mix(parent_a: Seq<u32>, parent_b: Seq<u32>, coins: Seq<bool>) -> Seq<u32> {
    Seq::new(
        parent_a.len(),
        |i: int|
            if coins[i] {
                parent_a[i]
            } else {
                parent_b[i]
            },
    )
}

/// Uniform crossover: every gene is taken from one parent or the other by
/// an independent fair coin.
pub struct UniformCrossover;

impl UniformCrossover {
    /// Builds the child for coin flips that were already drawn, one per
    /// gene.
    pub fn recombine(parent_a: &Chromosome, parent_b: &Chromosome, coins: &Vec<bool>) -> (child:
        Chromosome)
        requires
            parent_a@.len() == parent_b@.len(),
            coins@.len() == parent_a@.len(),
        ensures
            child@ == uniform_mix(parent_a@, parent_b@, coins@),
    {
        let n: usize = parent_a.len();
        let mut genes: Vec<u32> = Vec::new();
        let mut i: usize = 0;
        while i < n
            invariant
                n == parent_a@.len(),
                n == parent_b@.len(),
                n == coins@.len(),
                i <= n,
                genes@.len() == i,
                forall|k: int|
                    0 <= k < i ==> genes@[k] == uniform_mix(parent_a@, parent_b@, coins@)[k],
            decreases n - i,
        {
            let gene: u32 = if coins[i] {
                parent_a.index(i)
            } else {
                parent_b.index(i)
            };
            genes.push(gene);
            i += 1;
        }
        assert(genes@ =~= uniform_mix(parent_a@, parent_b@, coins@));
        Chromosome::from_iter(genes)
    }

    /// Draws `count` fair coins from `rng`, in order.
    fn flip_coins(rng: &mut rand::rngs::StdRng, count: usize) -> (coins: Vec<bool>)
        ensures
            coins@.len() == count,
    {
        let mut coins: Vec<bool> = Vec::new();
        let mut i: usize = 0;
        while i < count
            invariant
                i <= count,
                coins@.len() == i,
            decreases count - i,
        {
            let heads = fair_coin(rng);
            coins.push(heads);
            i += 1;
        }
        coins
    }
}

impl CrossoverMethod for UniformCrossover {
    /// Uniform crossover gives exactly the children that take each gene
    /// from one parent or the other.
    open spec fn can_yield(&self, parent_a: Seq<u32>, parent_b: Seq<u32>, child: Seq<u32>) -> bool {
        recombines(parent_a, parent_b, child)
    }

    /// Draws one fair coin per gene from `rng` and recombines the parents
    /// by them. Whatever the coins show, the child has the parents' length
    /// and each of its genes is the gene of one parent at that position.
    fn crossover(
        &self,
        rng: &mut rand::rngs::StdRng,
        parent_a: &Chromosome,
        parent_b: &Chromosome,
    ) -> (child: Chromosome)
        ensures
            exists|coins: Seq<bool>|
                coins.len() == parent_a@.len() && child@ == uniform_mix(
                    parent_a@,
                    parent_b@,
                    coins,
                ),
            forall|i: int|
                0 <= i < child@.len() ==> child@[i] == parent_a@[i] || child@[i] == parent_b@[i],
    {
        let coins = Self::flip_coins(rng, parent_a.len());
        let child = Self::recombine(parent_a, parent_b, &coins);
        proof {
            uniform_mix_takes_parent_genes(parent_a@, parent_b@, coins@);
        }
        child
    }
}

/// The child of a uniform crossover is as long as its parents.
pub proof fn uniform_mix_keeps_length(parent_a: Seq<u32>, parent_b: Seq<u32>, coins: Seq<bool>)
    requires
        parent_a.len() == parent_b.len(),
    ensures
        uniform_mix(parent_a, parent_b, coins).len() == parent_a.len(),
        uniform_mix(parent_a, parent_b, coins).len() == parent_b.len(),
{
}

/// At every position the child of a uniform crossover carries the gene that
/// one of its parents carries there: nothing is blended and nothing is new.
pub proof fn uniform_mix_takes_parent_genes(
    parent_a: Seq<u32>,
    parent_b: Seq<u32>,
    coins: Seq<bool>,
)
    requires
        parent_a.len() == parent_b.len(),
    ensures
        forall|i: int|
            0 <= i < parent_a.len() ==> #[trigger] uniform_mix(parent_a, parent_b, coins)[i]
                == parent_a[i] || uniform_mix(parent_a, parent_b, coins)[i] == parent_b[i],
{
}

} // verus!
