//! Neuroevolution of simple foraging animals: small feed-forward networks whose
//! weights are bred by a genetic algorithm, inside a toroidal two-dimensional
//! world.
//!
//! Every real-valued quantity (a gene, a coordinate, an angle) is carried as the
//! 32-bit pattern of an IEEE-754 single-precision number. The library stores,
//! moves and compares these patterns but never does arithmetic on them: where a
//! step needs arithmetic on reals, the caller passes it in as a function value,
//! and the contract of the step is stated relative to that function.
//! Fitness is a count and is held as an integer.
//!
//! All randomness comes from one generator that the caller seeds and passes
//! in. Every function that draws takes it as an argument, and hands it on to
//! the function values that draw reals, so that a run can be repeated from
//! its seed.

pub mod animal;
pub mod brain;
pub mod chromosome;
pub mod crossover;
pub mod error;
pub mod eye;
pub mod food;
pub mod genetic;
pub mod individual;
pub mod mutation;
pub mod network;
pub mod point;
pub mod random;
pub mod scalar;
pub mod selection;
pub mod simulation;
pub mod statistics;
pub mod world;

pub use crate::animal::{Animal, Motion};
pub use crate::brain::Brain;
pub use crate::chromosome::Chromosome;
pub use crate::crossover::{CrossoverMethod, UniformCrossover};
pub use crate::error::Error;
pub use crate::eye::{Eye, Sighting};
pub use crate::food::Food;
pub use crate::genetic::{GeneticAlgorithm, Individual};
pub use crate::individual::AnimalIndividual;
pub use crate::mutation::{GaussianMutation, MutationMethod};
pub use crate::network::{Layer, LayerTopology, Network, Neuron};
pub use crate::point::Point2;
pub use crate::selection::{RouletteWheelSelection, SelectionMethod};
pub use crate::simulation::Simulation;
pub use crate::statistics::{Ratio, Statistics, Summary};
pub use crate::world::World;
