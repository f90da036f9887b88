//! Evolution of populations of fixed-length genomes.
//!
//! A genome is an ordered sequence of units. One generation step ranks the
//! population by cost, lets every genome inherit loci from donors that are
//! drawn with a bias towards the cheap end of the ranking, and then mutates
//! a few loci at random. A genome can also be read as a square grid whose
//! four triangular quadrants give a steering signal.
//!
//! - `util`: random construction and the geometric sampler
//! - `blob`: the colour unit
//! - `gene`: genomes, crossover, mutation of a locus, similarity, creatures
//! - `square`: the grid of a genome and its quadrants
//! - `evolve`: ranking, the choice of fathers and donors, the generation step
//! - `population`: costs of colours, steering, genomes with a pattern
//! - `controller`: the marker of what steers a population
//! - `error`: the reasons for which an operation is refused
//!
//! Costs are integers and ratios are exact fractions: turning them into
//! floating point is left to the caller. What is drawn at random is not
//! described by any contract beyond the range it lies in; the contracts say
//! what holds whatever was drawn.

pub mod blob;
pub mod controller;
pub mod error;
pub mod evolve;
pub mod gene;
pub mod population;
pub mod square;
pub mod util;
