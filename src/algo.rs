use vstd::prelude::*;

use crate::ieee::RealBits;

verus! {

/// The search algorithm of a job and its settings.
#[derive(Clone, Copy, Debug, PartialEq, Eq, Structural)]
pub enum AlgoConf {
    ParallelHillClimbing(ParallelHillClimbingConf),
}

/// Settings of a parallel hill climb: the proposal spread relative to each
/// dimension's range, and how many candidates each iteration evaluates.
#[derive(Clone, Copy, Debug, PartialEq, Eq, Structural)]
pub struct ParallelHillClimbingConf {
    pub relative_std_dev: RealBits,
    pub degree_of_par: usize,
}

} // verus!
