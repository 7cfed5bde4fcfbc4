//! Random forests: bootstrap-aggregated ensembles of independently seeded
//! learners, with reproducible random streams.
use vstd::prelude::*;

pub mod forest;
pub mod random;

verus! {

} // verus!
