//! Neuroevolution engine: a generic genetic algorithm over flat chromosomes,
//! a feed-forward network whose parameters encode to and decode from such a
//! chromosome, and the bookkeeping of a simulation that breeds its agents'
//! brains generation after generation.
//!
//! The library is generic over the scalar held in genes and weights; the
//! arithmetic on that scalar lives with the caller.
pub mod animal_individual;
pub mod brain;
pub mod chromosome;
pub mod crossover;
pub mod genetic_algorithm;
pub mod individual;
pub mod information;
pub mod mutation;
pub mod network;
pub mod random;
pub mod selection;
pub mod simulation;

pub use animal_individual::AnimalIndividual;
pub use brain::Brain;
pub use chromosome::Crhomosome;
pub use crossover::{CrossoverMethod, UniformCrossover};
pub use genetic_algorithm::{EvolveError, GeneticAlgorithm};
pub use individual::Individual;
pub use information::{Information, Statistics};
pub use mutation::MutationMethod;
pub use network::{DecodeError, Layer, LayerTopology, Network, Neuron};
pub use selection::{RouletteWheelSelection, SelectionError, SelectionMethod};
pub use simulation::{decode_brains, GenerationClock, GenerationError, GENERATION_LENGTH, next_generation};
