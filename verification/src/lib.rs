//! A string-matching genetic algorithm: a population of byte-sequence
//! individuals is evolved toward an exact match with a fixed target by
//! iterated selection, crossover and mutation.

pub mod errors;
pub mod evolve;
pub mod fitness;
pub mod render;
pub mod reproduce;
pub mod rng;
pub mod select;
pub mod sort;
