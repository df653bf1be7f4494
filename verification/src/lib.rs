//! A minimal neuroevolution core: a feedforward neural network that can be
//! evaluated, recombined by crossover, and perturbed by mutation, with no
//! gradient-based training.
//!
//! Every scalar the network handles is a fixed-point signal value: an `i64`
//! standing for the real number `value / SCALE`.  This keeps the whole
//! numeric core in exact integer arithmetic, so prediction, crossover and
//! mutation carry precise contracts.

pub mod fixed;
pub mod rng;
pub mod neuron;
pub mod network;
