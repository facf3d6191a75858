//! A single die: holds its current face and rerolls it at random.

use vstd::prelude::*;
use crate::face::Pips;

verus! {

/// Relies on rand's `thread_rng` and `Rng::gen_range`: a value sampled
/// from the non-empty range `1..=6` lies within that range. Nothing more
/// is assumed of it; which value comes back may differ on every call.
#[verifier::external_body]
fn random_outcome() -> (r: i32)
    ensures
        1 <= r <= 6,
{
    rand::Rng::gen_range(&mut rand::thread_rng(), 1..=6)
}

/// One simulated six-sided die.
pub struct Dice {
    /// The face currently showing.
    pub current_face: Pips,
}

impl Dice {
    /// Reroll the die: draw a fresh outcome in 1..=6 and show its face.
    /// Which value is drawn is random; `Pips::from_outcome` guarantees
    /// the new face shows exactly the drawn value, untouched by the old
    /// face.
    pub fn roll_dice(&mut self)
        ensures
            1 <= final(self).current_face.spec_value() <= 6,
    {
        let random_number = random_outcome();
        self.current_face = Pips::from_outcome(random_number);
    }
}

} // verus!
