//! A random number generator that keeps a record of what was drawn.
use rand::rngs::StdRng;
use vstd::prelude::*;

verus! {

/// One draw that was made: from the numbers from `low` up to, but not equal to, `high`, and with
/// this result.
pub struct Draw {
    pub low: usize,
    pub high: usize,
    pub value: usize,
}

/// A random number generator, with the record of every draw that was made with it. The record is
/// there for proofs only; a draw goes on it by being made, and in no other way.
pub struct Dice {
    pub(crate) rng: StdRng,
    draws: Ghost<Seq<Draw>>,
}

impl View for Dice {
    type V = Seq<Draw>;

    closed spec fn view(&self) -> Seq<Draw> {
        self.draws@
    }
}

impl Dice {
    /// Dice that have not been used yet.
    pub fn new(rng: StdRng) -> (dice: Dice)
        ensures
            dice@ == Seq::<Draw>::empty(),
    {
        Dice { rng, draws: Ghost(Seq::empty()) }
    }
}

} // verus!
