//! Multi-codec image comparison: codec configuration, quality mapping,
//! report bookkeeping and command planning, with their contracts proved.
use vstd::prelude::*;

pub mod quality_predictor;
pub mod text;
pub mod order;
pub mod encoders;
pub mod report;
pub mod registry;
pub mod compare;
pub mod cli;

verus! {

} // verus!
