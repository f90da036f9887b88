//! The ways in which an operation of this library can fail.

use vstd::prelude::*;

verus! {

/// Why an operation was refused. Every one of them means that the caller
/// handed in something that the operation is not defined for.
#[derive(Debug, Clone, Copy, PartialEq, Eq, Structural)]
pub enum GeneError {
    /// A count or a rate that has to be positive was zero, or a population or
    /// a genome was too small for the step.
    InvalidArgument,
    /// A locus lies past the end of the genome.
    OutOfBounds,
    /// Genomes, or a genome and its donor map, differ in length.
    LengthMismatch,
    /// A number does not fit the integer type that has to hold it.
    Overflow,
}

} // verus!
