use neuroevolution::{
    next_generation, AnimalIndividual, Brain, Crhomosome, GenerationClock, GenerationError,
    GeneticAlgorithm, Information, MutationMethod, RouletteWheelSelection, Statistics,
    UniformCrossover, DecodeError, GENERATION_LENGTH,
};
use neuroevolution::genetic_algorithm::EvolveError;
use neuroevolution::selection::SelectionError;
use rand::SeedableRng;
use rand_chacha::ChaCha8Rng;

struct KeepGenes;

impl MutationMethod<f32> for KeepGenes {
    fn mutates_to(&self, before: f32, after: f32) -> bool {
        after == before
    }

    fn mutate_gene(&self, _rng: &mut ChaCha8Rng, gene: f32) -> f32 {
        gene
    }
}

fn brain(cells: usize, seed: f32) -> Brain<f32> {
    let n = 2 * cells * (1 + cells) + 2 * cells * (1 + 2 * cells);
    let genes: Vec<f32> = (0..n).map(|k| seed + k as f32).collect();
    Brain::from_crhomosome(Crhomosome::new(genes), cells).unwrap()
}

#[test]
fn brain_topology_follows_cells() {
    let t = Brain::<f32>::topology(9);
    assert_eq!(t[0].neurons, 9);
    assert_eq!(t[1].neurons, 18);
    assert_eq!(t[2].neurons, 18);
}

#[test]
fn brain_chromosome_round_trip() {
    let b = brain(2, 0.5);
    let c = b.as_crhomosome();
    assert_eq!(c.len(), 4 * 3 + 4 * 5);
    assert_eq!(c.get(0), 0.5);
    let back = Brain::from_crhomosome(Crhomosome::new(c.genes().clone()), 2).unwrap();
    assert_eq!(back.as_crhomosome().into_genes(), b.as_crhomosome().into_genes());
}

#[test]
fn brain_rejects_wrong_length() {
    let short = Crhomosome::new(vec![0.0f32; 3]);
    assert_eq!(Brain::from_crhomosome(short, 1).err(), Some(DecodeError::TooFewWeights));
    let long = Crhomosome::new(vec![0.0f32; 2 * 2 + 2 * 3 + 1]);
    assert_eq!(Brain::from_crhomosome(long, 1).err(), Some(DecodeError::TooManyWeights));
}

#[test]
fn clock_fires_once_per_generation() {
    let mut clock = GenerationClock::new();
    let mut fired = 0;
    for _ in 0..GENERATION_LENGTH + 1 {
        if clock.tick() {
            fired += 1;
        }
    }
    assert_eq!(fired, 1);
    assert!(clock.age() <= 1);
    assert_eq!(clock.generation(), 1);
    for _ in 0..GENERATION_LENGTH {
        assert!(!clock.tick());
    }
    assert!(clock.tick());
    assert_eq!(clock.generation(), 2);
}

#[test]
fn next_generation_keeps_population_size() {
    let mut rng = ChaCha8Rng::from_seed(Default::default());
    let ga = GeneticAlgorithm::new(RouletteWheelSelection, UniformCrossover, KeepGenes);
    let cells = 3;
    let population: Vec<_> = (0..5u64)
        .map(|k| AnimalIndividual::from_brain(&brain(cells, k as f32), k))
        .collect();
    let brains = next_generation(&ga, &mut rng, &population, cells).unwrap();
    assert_eq!(brains.len(), 5);
    for b in &brains {
        assert_eq!(b.network().layers().len(), 2);
        assert_eq!(b.as_crhomosome().len(), population[0].chromosome.len());
    }
}

#[test]
fn next_generation_reports_starved_population() {
    let mut rng = ChaCha8Rng::from_seed(Default::default());
    let ga = GeneticAlgorithm::new(RouletteWheelSelection, UniformCrossover, KeepGenes);
    let population = vec![AnimalIndividual::from_brain(&brain(1, 0.0), 0)];
    assert_eq!(
        next_generation(&ga, &mut rng, &population, 1).err(),
        Some(GenerationError::Evolve(EvolveError::Selection(SelectionError::ZeroFitness)))
    );
}

#[test]
fn next_generation_reports_wrong_shape() {
    let mut rng = ChaCha8Rng::from_seed(Default::default());
    let ga = GeneticAlgorithm::new(RouletteWheelSelection, UniformCrossover, KeepGenes);
    let population = vec![AnimalIndividual::from_brain(&brain(1, 0.0), 4)];
    assert_eq!(
        next_generation(&ga, &mut rng, &population, 2).err(),
        Some(GenerationError::Decode(DecodeError::TooFewWeights))
    );
}

#[test]
fn individual_from_brain_carries_fitness() {
    let b = brain(1, 1.0);
    let i = AnimalIndividual::from_brain(&b, 7);
    assert_eq!(i.fitness, 7);
    assert_eq!(i.chromosome.len(), 2 * 2 + 2 * 3);
    let again = i.into_brain(1).unwrap();
    assert_eq!(again.as_crhomosome().into_genes(), b.as_crhomosome().into_genes());
}

#[test]
fn statistics_of_fitness() {
    let s = Statistics::of(&vec![3, 1, 4, 1, 5]);
    assert_eq!(s.min_fitness, 1);
    assert_eq!(s.max_fitness, 5);
    assert_eq!(s.sum_fitness, 14);
    assert_eq!(s.population, 5);
    let big = Statistics::of(&vec![u64::MAX, u64::MAX]);
    assert_eq!(big.sum_fitness, 2 * u64::MAX as u128);
}

#[test]
fn information_holds_generation() {
    assert_eq!(Information::new(42).generation(), 42);
}

#[test]
fn decode_brains_keeps_each_chromosome_in_place() {
    let first = brain(1, 0.0);
    let second = brain(1, 100.0);
    let bred = vec![
        AnimalIndividual::from_brain(&first, 0),
        AnimalIndividual::from_brain(&second, 0),
    ];
    let brains = neuroevolution::decode_brains(bred, 1).unwrap();
    assert_eq!(brains.len(), 2);
    assert_eq!(brains[0].as_crhomosome().into_genes(), first.as_crhomosome().into_genes());
    assert_eq!(brains[1].as_crhomosome().into_genes(), second.as_crhomosome().into_genes());
}

#[test]
fn decode_brains_rejects_a_wrong_length() {
    let bred = vec![
        AnimalIndividual::from_brain(&brain(1, 0.0), 0),
        AnimalIndividual { fitness: 0, chromosome: Crhomosome::new(vec![0.0f32; 11]) },
    ];
    assert_eq!(neuroevolution::decode_brains(bred, 1).err(), Some(DecodeError::TooManyWeights));
}
