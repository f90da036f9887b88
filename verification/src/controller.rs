//! What steers a population from one generation to the next.

use vstd::prelude::*;
use crate::util::Create;

verus! {

/// A controller of creatures whose genomes are made of units of type `T`.
/// It owns a population and decides, tick by tick, when a generation step
/// is run and with which cost function.
pub trait Control<T> where T: Create + Copy {

}

} // verus!
