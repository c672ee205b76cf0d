//! A genetic-algorithm approximation of the Traveling Salesman Problem:
//! a symmetric random distance map over `N` cities and an evolution engine
//! that breeds permutation tours by elite crossover and swap mutation.

pub mod engine;
pub mod map;
pub mod rng;
pub mod tour;

use vstd::prelude::*;

verus! {

/// The fatal configuration errors: none of them is retried.
#[derive(Clone, Copy, Debug, PartialEq, Eq, Structural)]
pub enum TspError {
    /// Fewer than two cities: no meaningful tour exists.
    CityCountTooSmall,
    /// A given distance matrix is not square, not symmetric, has a non-zero
    /// diagonal, an off-diagonal entry outside `[1, 5*N)`, or is too large
    /// for its path lengths to fit in `usize`.
    InvalidMatrix,
    /// A population of size zero cannot evolve.
    ZeroPopulation,
}

/// The run configuration a driving loop needs: how many cities, how many
/// tours per generation, and how many generations to evolve.
pub struct Cli {
    pub cities: usize,
    pub population: usize,
    pub generations: usize,
}

impl Default for Cli {
    /// The stock configuration: 100 cities, 5000 tours, 1000 generations.
    fn default() -> (r: Cli)
        ensures
            r.cities == 100,
            r.population == 5000,
            r.generations == 1000,
    {
        Cli { cities: 100, population: 5000, generations: 1000 }
    }
}

} // verus!
