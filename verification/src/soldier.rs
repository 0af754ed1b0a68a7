//! Soldiers and the odds of a fight.

use vstd::prelude::*;

verus! {

/// The attributes a participant sends into a fight.
///
/// Only `defense` enters the odds; `attack` is carried along and never read
/// when a fight is decided.
#[derive(Clone, Copy, Debug, PartialEq, Eq, Structural)]
pub struct Soldier {
    pub defense: u32,
    pub attack: u32,
}

/// The initiator's chance to win, in percent: even odds shifted by the
/// difference of the two defense values and kept within 0 and 100.
pub open spec fn win_chance_spec(initiator_defense: u32, competitor_defense: u32) -> int {
    let shifted = 50 + initiator_defense - competitor_defense;
    if shifted < 0 {
        0
    } else if shifted > 100 {
        100
    } else {
        shifted
    }
}

/// Whether the initiator wins with the given chance when `random_value` was drawn:
/// the draw has to fall strictly below the chance.
pub open spec fn initiator_wins_spec(chance: int, random_value: u32) -> bool {
    random_value < chance
}

/// Computes the initiator's chance to win, in percent.
pub fn win_chance(initiator: &Soldier, competitor: &Soldier) -> (chance: u32)
    ensures
        chance == win_chance_spec(initiator.defense, competitor.defense),
        chance <= 100,
{
    let shifted: i64 = 50 + (initiator.defense as i64) - (competitor.defense as i64);
    if shifted < 0 {
        0
    } else if shifted > 100 {
        100
    } else {
        shifted as u32
    }
}

/// Decides a fight from the initiator's chance and the number drawn.
pub fn initiator_wins(chance: u32, random_value: u32) -> (wins: bool)
    ensures
        wins == initiator_wins_spec(chance as int, random_value),
{
    random_value < chance
}

} // verus!
