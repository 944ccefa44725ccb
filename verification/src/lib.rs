//! A verified core for a population of autonomous agents ("nodes") that hold
//! energy and token balances, act on a fixed cadence, and are steered by a
//! coordinator that observes global state and intervenes.
//!
//! All scalar quantities (energy, balances, traits, outcome scores) are held
//! in fixed-point milli-units: the integer `1000` stands for one whole unit.
//! This keeps every arithmetic step exact and verifiable.

use vstd::prelude::*;

pub mod block;
pub mod brain;
pub mod chain;
pub mod clock;
pub mod economy;
pub mod economy_cycle;
pub mod energy_evolution;
pub mod energy;
pub mod fixmath;
pub mod hashing;
pub mod interaction;
pub mod memory;
pub mod network;
pub mod node;
pub mod numfmt;
pub mod registry;
pub mod rng;
pub mod synapse;
pub mod wallet;

verus! {

/// Number of milli-units in one whole unit of any scalar quantity.
pub const MILLI: u64 = 1000;

} // verus!
