//! Tunable constants of the machine and of the mutation engine.

use vstd::prelude::*;

verus! {

/// Number of instructions in a newly generated genome.
pub const BASE_GENOME_LENGTH: usize = 100;

/// Chance in percent that a word is replaced by a random word.
pub const MUTATION_RATE: u32 = 1;

/// Chance in percent that a word is followed by a copy of itself.
pub const DUPLICATION_RATE: u32 = 1;

/// Chance in percent that a word is left out.
pub const DELETION_RATE: u32 = 1;

/// Energy an agent needs before `Split` takes effect, and that the split costs.
pub const SPLIT_ENERGY_COST: u32 = 10;

/// Energy of an agent spawned at start.
pub const STARTING_ANIMAL_ENERGY: u32 = 10;

/// Energy drained from each agent per metabolism tick.
pub const METABOLISM_COST: u32 = 1;

/// Most energy that one `Eat` moves from a plant to an agent.
pub const EAT_AMOUNT: u32 = 20;

/// Most energy a plant stores.
pub const PLANT_MAX_ENERGY: u32 = 100;

/// Most instructions an agent executes in one tick.
pub const MAX_INSTRUCTIONS_PER_FRAME: u32 = 10;

/// Most values the operand stack holds.
pub const STACK_CAPACITY: usize = 256;

/// Raw steps per unit of a numeric value.
pub const NUMERIC_SCALE: i64 = 1_000_000;

/// Two numerics closer than this (0.001) count as equal.
pub const EQUALITY_TOLERANCE: i64 = 1_000;

/// What a smell sensor reads when it detects nothing (999999).
pub const NO_SIGNAL: i64 = 999_999_000_000;

/// A movement operand is divided by this (scaled by 0.01) before it is clamped.
pub const MOVEMENT_DIVISOR: i64 = 100;

/// Age in seconds at which an agent dies (60.0).
pub const MAX_LIFESPAN: i64 = 60_000_000;

/// Largest distance at which an agent eats from a plant (10.0).
pub const EAT_DISTANCE: i64 = 10_000_000;

/// Largest distance moved by one instruction (0.5).
pub const MAX_MOVEMENT_SPEED: i64 = 500_000;

/// Largest turn made by one instruction, in degrees (5.0).
pub const MAX_ANGULAR_VELOCITY: i64 = 5_000_000;

} // verus!
