//! Energy rules of the world around the machine: plants, eating and
//! reproduction.

use vstd::prelude::*;
use crate::config::{EAT_AMOUNT, MAX_LIFESPAN, PLANT_MAX_ENERGY, SPLIT_ENERGY_COST};

verus! {

/// A plant: a store of energy that grows and is eaten.
#[derive(Debug, Clone, Copy, PartialEq, Eq, Structural)]
pub struct Plant {
    pub energy: u32,
}

/// The energy that one `Eat` takes from a plant holding `available`.
pub open spec fn transfer_of(available: u32) -> u32 {
    if available < EAT_AMOUNT {
        available
    } else {
        EAT_AMOUNT
    }
}

/// The energy of each of the two offspring of a parent: half of what the
/// split's cost leaves.
pub open spec fn share_of(parent: u32) -> int {
    if parent >= SPLIT_ENERGY_COST {
        (parent - SPLIT_ENERGY_COST) / 2
    } else {
        0
    }
}

/// Whether `i` is the first position of the smallest distance within reach.
pub open spec fn is_nearest_in_reach(distances: Seq<i64>, reach: i64, i: int) -> bool {
    &&& 0 <= i < distances.len()
    &&& distances[i] <= reach
    &&& forall|j: int| 0 <= j < distances.len() ==> distances[i] <= #[trigger] distances[j]
    &&& forall|j: int| 0 <= j < i ==> distances[i] < #[trigger] distances[j]
}

/// Picks among sources at the given distances the nearest one within reach,
/// the first of them where several are equally near; none where all lie
/// beyond reach.
pub fn nearest_in_reach(distances: &Vec<i64>, reach: i64) -> (r: Option<usize>)
    ensures
        match r {
            Some(i) => is_nearest_in_reach(distances@, reach, i as int),
            None => forall|j: int| 0 <= j < distances@.len() ==> #[trigger] distances@[j] > reach,
        },
{
    let mut best: Option<usize> = None;
    let mut i: usize = 0;
    while i < distances.len()
        invariant
            i <= distances@.len(),
            match best {
                Some(b) => is_nearest_in_reach(distances@.take(i as int), reach, b as int),
                None => forall|j: int| 0 <= j < i ==> #[trigger] distances@[j] > reach,
            },
        decreases distances@.len() - i,
    {
        let d: i64 = distances[i];
        let nearer: bool = match best {
            Some(b) => d < distances[b],
            None => d <= reach,
        };
        if nearer {
            best = Some(i);
        }
        i += 1;
    }
    assert(distances@.take(i as int) =~= distances@);
    best
}

impl Plant {
    /// A plant without energy.
    pub fn new() -> (p: Plant)
        ensures
            p.energy == 0,
    {
        Plant { energy: 0 }
    }

    /// Adds energy, up to the most a plant stores.
    pub fn add_energy(&mut self, amount: u32)
        ensures
            final(self).energy == (if old(self).energy + amount < PLANT_MAX_ENERGY {
                old(self).energy + amount
            } else {
                PLANT_MAX_ENERGY as int
            }),
    {
        let sum: u64 = self.energy as u64 + amount as u64;
        self.energy = if sum < PLANT_MAX_ENERGY as u64 {
            sum as u32
        } else {
            PLANT_MAX_ENERGY
        };
    }

    /// Takes energy away, down to zero.
    pub fn consume_energy(&mut self, amount: u32)
        ensures
            final(self).energy == (if old(self).energy >= amount {
                old(self).energy - amount
            } else {
                0
            }),
    {
        self.energy = if self.energy >= amount {
            self.energy - amount
        } else {
            0
        };
    }

    /// Lets an agent eat: takes from the plant what one `Eat` transfers and
    /// returns it. A plant left at zero is depleted.
    pub fn eaten(&mut self) -> (taken: u32)
        ensures
            taken == transfer_of(old(self).energy),
            final(self).energy == old(self).energy - taken,
    {
        let taken: u32 = if self.energy < EAT_AMOUNT {
            self.energy
        } else {
            EAT_AMOUNT
        };
        self.energy = self.energy - taken;
        taken
    }
}

/// Tells whether an agent is to be removed between ticks: its energy is
/// spent, or its age has reached the lifespan.
pub fn is_expired(energy: u32, age: i64) -> (r: bool)
    ensures
        r == (energy == 0 || age >= MAX_LIFESPAN),
{
    energy == 0 || age >= MAX_LIFESPAN
}

/// Returns the energy of each offspring of a parent that splits.
pub fn offspring_energy(parent: u32) -> (share: u32)
    ensures
        share == share_of(parent),
{
    if parent >= SPLIT_ENERGY_COST {
        (parent - SPLIT_ENERGY_COST) / 2
    } else {
        0
    }
}

} // verus!
