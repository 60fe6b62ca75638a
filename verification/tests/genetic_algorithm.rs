use lib_simulation::{
    AnimalIndividual, Chromosome, CrossoverMethod, GaussianMutation, GeneticAlgorithm, Individual,
    MutationMethod, RouletteWheelSelection, SelectionMethod, UniformCrossover,
};
use rand::{Rng, SeedableRng};
use rand_chacha::ChaCha8Rng;
use std::collections::BTreeMap;

fn bits(values: impl IntoIterator<Item = f32>) -> Vec<u32> {
    values.into_iter().map(f32::to_bits).collect()
}

fn individual(fitness: u64) -> AnimalIndividual {
    AnimalIndividual::new(fitness, Chromosome::new(Vec::new()))
}

fn carrier(fitness: u64, genes: &[f32]) -> AnimalIndividual {
    AnimalIndividual::new(fitness, Chromosome::new(bits(genes.iter().cloned())))
}

fn perturb(rng: &mut ChaCha8Rng, gene: u32, negative: bool, chance: u32, coeff: u32) -> u32 {
    let sign = if negative { -1.0 } else { 1.0 };
    if rng.gen_bool(f32::from_bits(chance) as f64) {
        (f32::from_bits(gene) + sign * f32::from_bits(coeff) * rng.gen::<f32>()).to_bits()
    } else {
        gene
    }
}

type Perturb = fn(&mut ChaCha8Rng, u32, bool, u32, u32) -> u32;

fn gaussian(chance: f32, coeff: f32) -> GaussianMutation<Perturb> {
    GaussianMutation::new(chance.to_bits(), coeff.to_bits(), perturb as Perturb).unwrap()
}

struct Keep;

impl MutationMethod for Keep {
    fn mutate(&self, _rng: &mut ChaCha8Rng, _child: &mut Chromosome) {}
}

#[test]
fn uniform_crossover() {
    let mut rng = ChaCha8Rng::from_seed(Default::default());
    let parent_a = Chromosome::new(bits((1..=100).map(|n| n as f32)));
    let parent_b = Chromosome::new(bits((1..=100).map(|n| -n as f32)));

    let child = UniformCrossover.crossover(&mut rng, &parent_a, &parent_b);

    let diff_a = child.genes().iter().zip(parent_a.genes()).filter(|(c, p)| *c != *p).count();
    let diff_b = child.genes().iter().zip(parent_b.genes()).filter(|(c, p)| *c != *p).count();

    assert_eq!(diff_a, 49);
    assert_eq!(diff_b, 51);
}

#[test]
fn uniform_crossover_is_fair_over_many_trials() {
    let mut rng = ChaCha8Rng::from_seed([3; 32]);
    let parent_a = Chromosome::new(bits((1..=100).map(|n| n as f32)));
    let parent_b = Chromosome::new(bits((1..=100).map(|n| -n as f32)));
    let mut from_a = 0usize;
    for _ in 0..200 {
        let child = UniformCrossover.crossover(&mut rng, &parent_a, &parent_b);
        assert_eq!(child.len(), 100);
        for index in 0..100 {
            let gene = child.get(index);
            assert!(gene == parent_a.get(index) || gene == parent_b.get(index));
            if gene == parent_a.get(index) {
                from_a += 1;
            }
        }
    }
    let share = from_a as f64 / 20_000.0;
    assert!((0.47..=0.53).contains(&share), "share of the first parent: {}", share);
}

#[test]
fn combine_takes_each_gene_from_the_parent_that_the_coin_names() {
    let parent_a = Chromosome::new(vec![1, 2, 3, 4]);
    let parent_b = Chromosome::new(vec![10, 20, 30, 40]);
    let child = UniformCrossover::combine(&parent_a, &parent_b, &vec![true, false, false, true]);
    assert_eq!(child.into_genes(), vec![1, 20, 30, 4]);
    let empty = UniformCrossover::combine(&Chromosome::new(vec![]), &Chromosome::new(vec![]), &vec![]);
    assert_eq!(empty.len(), 0);
}

#[test]
fn roulette_wheel_selection_is_proportional_to_fitness() {
    let mut rng = ChaCha8Rng::from_seed(Default::default());
    let population = vec![individual(2), individual(1), individual(4), individual(3)];
    let mut histogram: BTreeMap<u64, u64> = BTreeMap::new();
    for _ in 0..1000 {
        let fitness = RouletteWheelSelection.select(&mut rng, &population).fitness();
        *histogram.entry(fitness).or_insert(0) += 1;
    }
    assert_eq!(histogram.len(), 4);
    assert_eq!(histogram.values().sum::<u64>(), 1000);
    for fitness in 1..=4u64 {
        let expected = 100 * fitness;
        let actual = histogram[&fitness];
        assert!(actual.abs_diff(expected) * 10 <= expected, "fitness {}: {} draws", fitness, actual);
    }
}

#[test]
fn roulette_wheel_selection_passes_over_members_without_fitness() {
    let mut rng = ChaCha8Rng::from_seed([1; 32]);
    let population = vec![individual(0), individual(5), individual(0), individual(1)];
    for _ in 0..500 {
        assert!(RouletteWheelSelection.select(&mut rng, &population).fitness() > 0);
    }
}

#[test]
fn roulette_wheel_selection_draws_evenly_where_nobody_has_fitness() {
    let mut rng = ChaCha8Rng::from_seed([2; 32]);
    let population =
        vec![carrier(0, &[1.0]), carrier(0, &[2.0]), carrier(0, &[3.0]), carrier(0, &[4.0])];
    let mut histogram: BTreeMap<u32, u64> = BTreeMap::new();
    for _ in 0..1000 {
        let chosen = RouletteWheelSelection.select(&mut rng, &population);
        *histogram.entry(chosen.chromosome().get(0)).or_insert(0) += 1;
    }
    assert_eq!(histogram.len(), 4);
    for count in histogram.values() {
        assert!(count.abs_diff(250) <= 50, "{:?}", histogram);
    }
}

#[test]
fn evolve_keeps_the_size_of_the_population() {
    let ga = GeneticAlgorithm::new(RouletteWheelSelection, UniformCrossover, gaussian(0.5, 0.5));
    for size in 1..=12usize {
        let mut rng = ChaCha8Rng::from_seed([size as u8; 32]);
        let population: Vec<AnimalIndividual> =
            (0..size).map(|n| carrier(n as u64, &[n as f32, 1.0, 2.0])).collect();
        let offspring = ga.evolve(&mut rng, &population);
        assert_eq!(offspring.len(), size);
        for child in &offspring {
            assert_eq!(child.chromosome().len(), 3);
            assert_eq!(child.fitness(), 0);
        }
    }
}

#[test]
fn evolve_without_mutation_breeds_genes_of_the_fit_parents_only() {
    let ga = GeneticAlgorithm::new(RouletteWheelSelection, UniformCrossover, Keep);
    let mut rng = ChaCha8Rng::from_seed([9; 32]);
    let population = vec![
        carrier(0, &[0.0, 0.0, 0.0]),
        carrier(3, &[1.0, 1.0, 1.0]),
        carrier(0, &[5.0, 5.0, 5.0]),
        carrier(1, &[2.0, 2.0, 2.0]),
    ];
    let offspring = ga.evolve(&mut rng, &population);
    assert_eq!(offspring.len(), 4);
    for child in &offspring {
        for gene in child.chromosome().genes() {
            let gene = f32::from_bits(*gene);
            assert!(gene == 1.0 || gene == 2.0, "gene {}", gene);
        }
    }
}

fn run_generations(seed: [u8; 32]) -> Vec<Vec<u32>> {
    let mut rng = ChaCha8Rng::from_seed(seed);
    let ga = GeneticAlgorithm::new(RouletteWheelSelection, UniformCrossover, gaussian(0.5, 0.5));
    let cells = 3usize;
    let genes = (2 * cells) * (cells + 1) + 2 * (2 * cells + 1);
    let mut population: Vec<AnimalIndividual> = (0..4)
        .map(|n| {
            let values: Vec<f32> = (0..genes).map(|g| (n * genes + g) as f32 / 10.0).collect();
            carrier(n as u64 + 1, &values)
        })
        .collect();
    for _ in 0..10 {
        let offspring = ga.evolve(&mut rng, &population);
        population = offspring
            .into_iter()
            .enumerate()
            .map(|(n, child)| AnimalIndividual::new(n as u64 + 1, child.chromosome().duplicate()))
            .collect();
    }
    population.iter().map(|member| member.chromosome().genes().clone()).collect()
}

#[test]
fn ten_generations_repeat_from_the_same_seed() {
    let first = run_generations([5; 32]);
    let second = run_generations([5; 32]);
    assert_eq!(first.len(), 4);
    assert_eq!(first, second);
    let other = run_generations([6; 32]);
    assert_ne!(first, other);
}
