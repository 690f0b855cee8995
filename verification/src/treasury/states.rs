//! What the treasury keeps.

use vstd::prelude::*;

verus! {

/// The addresses that the treasury works with, and the reserve that it
/// never spends.
#[derive(Clone, Debug, PartialEq)]
pub struct Config {
    pub mine: String,
    pub controller: String,
    pub gas_reserve: u128,
    pub pylon_collector: String,
    pub pylon_governance: String,
    pub anchor_moneymarket: String,
    pub astroport_pair: String,
    pub astroport_generator: String,
}

/// When the treasury last harvested.
#[derive(Clone, Copy, Debug, PartialEq, Eq, Structural)]
pub struct State {
    pub prev_harvest_time: u64,
}

} // verus!
