//! Spatial evolutionary games on a two-dimensional lattice.
//!
//! Agents sit on the sites of a lattice and play a two-strategy game
//! (cooperate or defect) against their neighbours. Each generation every
//! site first collects its payoff and then keeps or flips its strategy,
//! depending on whether its own strategy is found among the best performers
//! around it.

pub mod cell;
pub mod neighbourhood;
pub mod payoff;
pub mod grid;
pub mod error;
pub mod rng;
pub mod fingerprint;
pub mod strategy;
pub mod generation;
pub mod trajectory;
