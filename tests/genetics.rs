use neuroevolution::{
    AnimalIndividual, Crhomosome, CrossoverMethod, EvolveError, GeneticAlgorithm, Individual,
    MutationMethod, RouletteWheelSelection, SelectionError, SelectionMethod, UniformCrossover,
};
use rand::SeedableRng;
use rand_chacha::ChaCha8Rng;

struct KeepGenes;

impl MutationMethod<f32> for KeepGenes {
    fn mutates_to(&self, before: f32, after: f32) -> bool {
        after == before
    }

    fn mutate_gene(&self, _rng: &mut ChaCha8Rng, gene: f32) -> f32 {
        gene
    }
}

struct Negate;

impl MutationMethod<f32> for Negate {
    fn mutates_to(&self, before: f32, after: f32) -> bool {
        after == -before
    }

    fn mutate_gene(&self, _rng: &mut ChaCha8Rng, gene: f32) -> f32 {
        -gene
    }
}

fn chromosome(genes: Vec<f32>) -> Crhomosome<f32> {
    Crhomosome::new(genes)
}

fn individual(fitness: u64, genes: &[f32]) -> AnimalIndividual<f32> {
    AnimalIndividual { fitness, chromosome: chromosome(genes.to_vec()) }
}

#[test]
fn uniform_crossover() {
    let mut rng = ChaCha8Rng::from_seed(Default::default());
    let parent_a = chromosome((1..=100).map(|n| n as f32).collect());
    let parent_b = chromosome((1..=100).map(|n| -n as f32).collect());

    let child = UniformCrossover.crossover(&mut rng, &parent_a, &parent_b);
    let diff_a = child
        .iter()
        .zip(parent_a.iter())
        .filter(|(c, p)| c != p)
        .count();
    let diff_b = child
        .iter()
        .zip(parent_b.iter())
        .filter(|(c, p)| c != p)
        .count();

    assert_eq!(diff_a, 49);
    assert_eq!(diff_b, 51);
}

#[test]
fn crossover_child_takes_each_gene_from_one_parent() {
    let mut rng = ChaCha8Rng::from_seed([7; 32]);
    let parent_a = chromosome(vec![1.0, 2.0, 3.0, 4.0, 5.0]);
    let parent_b = chromosome(vec![-1.0, -2.0, -3.0, -4.0, -5.0]);
    let child = UniformCrossover.crossover(&mut rng, &parent_a, &parent_b);
    assert_eq!(child.len(), 5);
    for i in 0..5 {
        let g = child.get(i);
        assert!(g == parent_a.get(i) || g == parent_b.get(i));
    }
}

#[test]
fn crossover_of_empty_parents_is_empty() {
    let mut rng = ChaCha8Rng::from_seed(Default::default());
    let child = UniformCrossover.crossover(&mut rng, &chromosome(vec![]), &chromosome(vec![]));
    assert_eq!(child.len(), 0);
}

#[test]
fn selection_frequency_follows_fitness() {
    let mut rng = ChaCha8Rng::from_seed(Default::default());
    let weights: Vec<u64> = vec![1, 2, 3, 4];
    let mut counts = [0usize; 4];
    let draws = 20_000;
    for _ in 0..draws {
        let i = RouletteWheelSelection::pick(&mut rng, &weights).unwrap();
        counts[i] += 1;
    }
    for (i, c) in counts.iter().enumerate() {
        let expected = draws as f64 * (i + 1) as f64 / 10.0;
        assert!((*c as f64 - expected).abs() < expected * 0.1, "{:?}", counts);
    }
}

#[test]
fn selection_never_picks_zero_fitness() {
    let mut rng = ChaCha8Rng::from_seed(Default::default());
    let population = vec![
        individual(0, &[0.0]),
        individual(5, &[1.0]),
        individual(0, &[2.0]),
    ];
    for _ in 0..200 {
        assert_eq!(RouletteWheelSelection.select(&mut rng, &population), Ok(1));
    }
}

#[test]
fn selection_rejects_all_zero_fitness() {
    let mut rng = ChaCha8Rng::from_seed(Default::default());
    let population = vec![individual(0, &[0.0]), individual(0, &[1.0])];
    assert_eq!(
        RouletteWheelSelection.select(&mut rng, &population),
        Err(SelectionError::ZeroFitness)
    );
}

#[test]
fn selection_rejects_overflowing_total() {
    assert_eq!(
        RouletteWheelSelection::total_weight(&vec![u64::MAX, 1]),
        Err(SelectionError::FitnessOverflow)
    );
    assert_eq!(RouletteWheelSelection::total_weight(&vec![u64::MAX - 1, 1]), Ok(u64::MAX));
    assert_eq!(RouletteWheelSelection::total_weight(&vec![0, 0, 0]), Err(SelectionError::ZeroFitness));
    assert_eq!(RouletteWheelSelection::total_weight(&vec![1, 2, 3, 4]), Ok(10));
}

#[test]
fn evolve_preserves_population_size() {
    let mut rng = ChaCha8Rng::from_seed(Default::default());
    let ga = GeneticAlgorithm::new(RouletteWheelSelection, UniformCrossover, KeepGenes);
    for size in 1..6usize {
        let population: Vec<_> = (0..size)
            .map(|k| individual(k as u64 + 1, &[k as f32, 1.0, 2.0]))
            .collect();
        let next = ga.envolve(&mut rng, &population).unwrap();
        assert_eq!(next.len(), size);
        for member in &next {
            assert_eq!(member.chromosome().len(), 3);
            assert_eq!(member.fitness(), 0);
        }
    }
}

#[test]
fn evolve_with_identity_mutation_only_recombines_genes() {
    let mut rng = ChaCha8Rng::from_seed(Default::default());
    let ga = GeneticAlgorithm::new(RouletteWheelSelection, UniformCrossover, KeepGenes);
    let population = vec![individual(1, &[1.0, 2.0, 3.0]), individual(3, &[-1.0, -2.0, -3.0])];
    let next = ga.envolve(&mut rng, &population).unwrap();
    for member in &next {
        for i in 0..3 {
            let g = member.chromosome().get(i);
            assert!(g == population[0].chromosome.get(i) || g == population[1].chromosome.get(i));
        }
    }
}

#[test]
fn evolve_applies_mutation_to_every_gene() {
    let mut rng = ChaCha8Rng::from_seed(Default::default());
    let ga = GeneticAlgorithm::new(RouletteWheelSelection, UniformCrossover, Negate);
    let population = vec![individual(1, &[1.0, 2.0, 3.0])];
    let next = ga.envolve(&mut rng, &population).unwrap();
    assert_eq!(next[0].chromosome().genes(), &vec![-1.0, -2.0, -3.0]);
}

#[test]
fn evolve_reports_zero_fitness() {
    let mut rng = ChaCha8Rng::from_seed(Default::default());
    let ga = GeneticAlgorithm::new(RouletteWheelSelection, UniformCrossover, KeepGenes);
    let population = vec![individual(0, &[1.0]), individual(0, &[2.0])];
    assert_eq!(
        ga.envolve(&mut rng, &population).err(),
        Some(EvolveError::Selection(SelectionError::ZeroFitness))
    );
}

#[test]
fn evolve_reports_mismatched_parents() {
    let mut rng = ChaCha8Rng::from_seed(Default::default());
    let ga = GeneticAlgorithm::new(RouletteWheelSelection, UniformCrossover, KeepGenes);
    let population = vec![individual(1, &[1.0]), individual(1, &[2.0, 3.0])];
    let mut saw_mismatch = false;
    for _ in 0..20 {
        match ga.envolve(&mut rng, &population) {
            Ok(next) => assert_eq!(next.len(), 2),
            Err(e) => {
                assert_eq!(e, EvolveError::ChromosomeLengthMismatch);
                saw_mismatch = true;
            }
        }
    }
    assert!(saw_mismatch);
}

#[test]
fn mutation_walks_every_gene_in_place() {
    let mut rng = ChaCha8Rng::from_seed(Default::default());
    let mut child = chromosome(vec![1.0, -2.0, 3.5]);
    Negate.mutate(&mut rng, &mut child);
    assert_eq!(child.into_genes(), vec![-1.0, 2.0, -3.5]);
}

#[test]
fn combine_follows_the_coins() {
    let parent_a = chromosome(vec![1.0, 2.0, 3.0, 4.0]);
    let parent_b = chromosome(vec![-1.0, -2.0, -3.0, -4.0]);
    let child = UniformCrossover::combine(&vec![true, false, false, true], &parent_a, &parent_b);
    assert_eq!(child.into_genes(), vec![1.0, -2.0, -3.0, 4.0]);
}
