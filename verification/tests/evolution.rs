use neuroevolution::chromosome::Chromosome;
use neuroevolution::crossover::{CrossoverMethod, UniformCrossover};
use neuroevolution::genetic::GeneticAlgorithm;
use neuroevolution::individual::Individual;
use neuroevolution::mutation::MutationMethod;
use neuroevolution::selection::SelectionMethod;
use rand::rngs::StdRng;
use rand::SeedableRng;

fn bits(values: &[f32]) -> Vec<u32> {
    values.iter().map(|v| v.to_bits()).collect()
}

struct Candidate {
    chromosome: Chromosome,
}

impl Individual for Candidate {
    fn create(chromosome: Chromosome) -> Self {
        Candidate { chromosome }
    }

    fn fitness(&self) -> u32 {
        let sum: f32 = self.chromosome.iter().iter().map(|g| f32::from_bits(*g)).sum();
        sum.to_bits()
    }

    fn chromosome(&self) -> &Chromosome {
        &self.chromosome
    }
}

struct FirstMember;

impl SelectionMethod for FirstMember {
    fn select<'a, I: Individual>(&self, _rng: &mut StdRng, population: &'a [I]) -> &'a I {
        &population[0]
    }
}

struct LastMember;

impl SelectionMethod for LastMember {
    fn select<'a, I: Individual>(&self, _rng: &mut StdRng, population: &'a [I]) -> &'a I {
        &population[population.len() - 1]
    }
}

struct Untouched;

impl MutationMethod for Untouched {
    fn mutate(&self, _rng: &mut StdRng, _child: &mut Chromosome) {}
}

struct FlipSigns;

impl MutationMethod for FlipSigns {
    fn mutate(&self, _rng: &mut StdRng, child: &mut Chromosome) {
        for gene in child.iter_mut().iter_mut() {
            *gene ^= 0x8000_0000;
        }
    }
}

fn candidate(values: &[f32]) -> Candidate {
    Candidate::create(Chromosome::from_iter(bits(values)))
}

#[test]
fn chromosome_round_trip_keeps_every_gene() {
    let genes = bits(&[3.0, 1.0, 2.0, -0.0, f32::NAN, f32::INFINITY]);
    let chromosome = Chromosome::from_iter(genes.clone());
    assert_eq!(chromosome.len(), 6);
    assert_eq!(chromosome.index(0), 3.0f32.to_bits());
    assert_eq!(chromosome.index(3), 0x8000_0000);
    assert_eq!(chromosome.iter(), &genes[..]);
    assert_eq!(chromosome.into_iter(), genes);
}

#[test]
fn chromosome_of_nothing_is_empty() {
    let chromosome = Chromosome::from_iter(Vec::new());
    assert_eq!(chromosome.len(), 0);
    assert_eq!(chromosome.into_iter(), Vec::<u32>::new());
}

#[test]
fn chromosome_mutable_pass_rewrites_in_place() {
    let mut chromosome = Chromosome::from_iter(bits(&[1.0, 2.0, 3.0]));
    for gene in chromosome.iter_mut().iter_mut() {
        *gene = (f32::from_bits(*gene) * 10.0).to_bits();
    }
    assert_eq!(chromosome.len(), 3);
    assert_eq!(chromosome.into_iter(), bits(&[10.0, 20.0, 30.0]));
}

#[test]
fn recombine_follows_the_coins() {
    let a = Chromosome::from_iter(bits(&[1.0, 2.0, 3.0, 4.0]));
    let b = Chromosome::from_iter(bits(&[-1.0, -2.0, -3.0, -4.0]));
    let child = UniformCrossover::recombine(&a, &b, &vec![true, false, false, true]);
    assert_eq!(child.into_iter(), bits(&[1.0, -2.0, -3.0, 4.0]));
    let child = UniformCrossover::recombine(&a, &b, &vec![false, false, false, false]);
    assert_eq!(child.into_iter(), bits(&[-1.0, -2.0, -3.0, -4.0]));
    assert_eq!(a.len(), 4);
    assert_eq!(b.len(), 4);
}

#[test]
fn uniform_crossover_takes_genes_from_both_parents() {
    let mut rng = StdRng::seed_from_u64(7);
    let a: Vec<f32> = (1..=100).map(|n| n as f32).collect();
    let b: Vec<f32> = (1..=100).map(|n| -(n as f32)).collect();
    let parent_a = Chromosome::from_iter(bits(&a));
    let parent_b = Chromosome::from_iter(bits(&b));
    let child = UniformCrossover.crossover(&mut rng, &parent_a, &parent_b);
    assert_eq!(child.len(), 100);
    let genes = child.into_iter();
    let mut from_a = 0;
    let mut from_b = 0;
    for i in 0..100 {
        if genes[i] == a[i].to_bits() {
            from_a += 1;
        } else {
            assert_eq!(genes[i], b[i].to_bits());
            from_b += 1;
        }
    }
    assert_eq!(from_a + from_b, 100);
    assert!(from_a > 20, "{from_a}");
    assert!(from_b > 20, "{from_b}");
}

#[test]
fn uniform_crossover_is_reproducible_under_a_seed() {
    let parent_a = Chromosome::from_iter(bits(&[1.0; 64]));
    let parent_b = Chromosome::from_iter(bits(&[2.0; 64]));
    let mut first = StdRng::seed_from_u64(42);
    let mut second = StdRng::seed_from_u64(42);
    let x = UniformCrossover.crossover(&mut first, &parent_a, &parent_b).into_iter();
    let y = UniformCrossover.crossover(&mut second, &parent_a, &parent_b).into_iter();
    assert_eq!(x, y);
}

#[test]
fn uniform_crossover_of_empty_parents_is_empty() {
    let mut rng = StdRng::seed_from_u64(1);
    let a = Chromosome::from_iter(Vec::new());
    let b = Chromosome::from_iter(Vec::new());
    assert_eq!(UniformCrossover.crossover(&mut rng, &a, &b).len(), 0);
}

#[test]
fn evolve_keeps_the_population_size() {
    let mut rng = StdRng::seed_from_u64(3);
    let algorithm = GeneticAlgorithm::new(FirstMember, UniformCrossover, Untouched);
    for size in 1..6usize {
        let population: Vec<Candidate> =
            (0..size).map(|n| candidate(&[n as f32, 1.0, 2.0])).collect();
        let next = algorithm.evolve(&mut rng, &population);
        assert_eq!(next.len(), size);
        for child in &next {
            assert_eq!(child.chromosome().len(), 3);
        }
    }
}

#[test]
fn evolve_breeds_from_the_selected_parents() {
    let mut rng = StdRng::seed_from_u64(3);
    let population = vec![candidate(&[1.0, 2.0]), candidate(&[5.0, 6.0])];
    let algorithm = GeneticAlgorithm::new(LastMember, UniformCrossover, Untouched);
    let next = algorithm.evolve(&mut rng, &population);
    assert_eq!(next.len(), 2);
    for child in &next {
        assert_eq!(child.chromosome().iter(), &bits(&[5.0, 6.0])[..]);
        assert_eq!(f32::from_bits(child.fitness()), 11.0);
    }
}

#[test]
fn evolve_applies_the_mutation_to_every_child() {
    let mut rng = StdRng::seed_from_u64(3);
    let population = vec![candidate(&[1.0, 2.0]), candidate(&[5.0, 6.0])];
    let algorithm = GeneticAlgorithm::new(FirstMember, UniformCrossover, FlipSigns);
    let next = algorithm.evolve(&mut rng, &population);
    assert_eq!(next.len(), 2);
    for child in &next {
        assert_eq!(child.chromosome().iter(), &bits(&[-1.0, -2.0])[..]);
    }
}

#[test]
fn breed_gives_a_child_of_two_members() {
    let mut rng = StdRng::seed_from_u64(17);
    let population = vec![candidate(&[1.0, 2.0, 3.0]), candidate(&[1.0, 2.0, 3.0])];
    let algorithm = GeneticAlgorithm::new(FirstMember, UniformCrossover, Untouched);
    let child = algorithm.breed(&mut rng, &population);
    assert_eq!(child.chromosome().iter(), &bits(&[1.0, 2.0, 3.0])[..]);
    assert_eq!(population.len(), 2);
}
