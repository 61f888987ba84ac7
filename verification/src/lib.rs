//! A d20 dice-rolling simulator: a die roller, composition rules for rolling
//! with advantage and disadvantage, and summary statistics over a sorted
//! population of roll outcomes.

pub mod rolls;
pub mod sorting;
pub mod stats;
