//! A budget-gated stack machine that runs evolvable programs ("genomes") for
//! simulated agents, and the mutation operators that evolve those programs.
//!
//! Numeric stack values are fixed-point: an `i64` counts millionths of a unit
//! (see [`numeric`]).

pub mod config;
pub mod numeric;
pub mod random;
pub mod word;
pub mod genome;
pub mod executor;
pub mod interpreter;
pub mod ecology;
