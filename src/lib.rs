//! Discovers the contracts that emitted a log with a given topic over a range
//! of blocks, querying the range in bounded windows.
pub mod addresses;
pub mod batches;
pub mod scanner;

use vstd::prelude::*;

verus! {

/// Run state of the command-line entry point; it holds nothing yet.
#[derive(Default, Clone)]
pub struct State {}

} // verus!
