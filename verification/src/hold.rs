//! Peak holds: what was loudest since the last reset.

use crate::level::Level;
use vstd::prelude::*;

verus! {

/// The bit pattern of `-100.0`, where the holds of Lucent start.
pub const HOLD_START_BITS: u32 = 0xc2c8_0000;

/// What is held once a new level has come: the louder one.
pub open spec fn held(hold: Level, new: Level) -> Level {
    if new.above(hold) {
        new
    } else {
        hold
    }
}

/// What is held once a new level has come.
pub fn hold_peak(hold: Level, new: Level) -> (r: Level)
    ensures
        r == held(hold, new),
{
    if new.gt(hold) {
        new
    } else {
        hold
    }
}

/// The held peaks of both channels and of the louder of them.
#[derive(Clone, Copy, Debug, PartialEq, Eq, Structural)]
pub struct PeakHolds {
    pub value: Level,
    pub left: Level,
    pub right: Level,
}

impl PeakHolds {
    /// Holds that start at a level.
    pub fn new(start: Level) -> (r: PeakHolds)
        ensures
            r == (PeakHolds { value: start, left: start, right: start }),
    {
        PeakHolds { value: start, left: start, right: start }
    }

    /// The holds once the peaks of a block have come.
    pub open spec fn after_block(self, value: Level, left: Level, right: Level) -> PeakHolds {
        PeakHolds {
            value: held(self.value, value),
            left: held(self.left, left),
            right: held(self.right, right),
        }
    }

    /// Starts again at a level.
    pub fn reset(&mut self, start: Level)
        ensures
            *final(self) == (PeakHolds { value: start, left: start, right: start }),
    {
        *self = PeakHolds { value: start, left: start, right: start };
    }

    /// Takes in the peaks of a block.
    pub fn update(&mut self, value: Level, left: Level, right: Level)
        ensures
            *final(self) == old(self).after_block(value, left, right),
    {
        self.value = hold_peak(self.value, value);
        self.left = hold_peak(self.left, left);
        self.right = hold_peak(self.right, right);
    }
}

/// A held peak never falls, and is never below a level that came.
pub proof fn law_holds_never_fall(hold: Level, new: Level)
    ensures
        !hold.above(held(hold, new)),
        !hold.nan() ==> !new.above(held(hold, new)),
        held(hold, new) == hold || held(hold, new) == new,
{
}

/// The largest magnitude of the first `n` samples, zero where there are none.
pub open spec fn loudest(samples: Seq<Level>, n: nat) -> Level
    decreases n,
{
    if n == 0 {
        Level { bits: 0 }
    } else {
        loudest(samples, (n - 1) as nat).larger(samples[n - 1].absolute())
    }
}

/// The largest magnitude of the first `n` samples of both channels, zero where there are none.
pub open spec fn loudest_of_both(left: Seq<Level>, right: Seq<Level>, n: nat) -> Level
    decreases n,
{
    if n == 0 {
        Level { bits: 0 }
    } else {
        loudest_of_both(left, right, (n - 1) as nat).larger(left[n - 1].absolute()).larger(
            right[n - 1].absolute(),
        )
    }
}

/// The peaks of a block: of both channels together, left and right.
pub fn block_peaks(left: &Vec<Level>, right: &Vec<Level>) -> (r: PeakHolds)
    requires
        left.len() == right.len(),
    ensures
        r.value == loudest_of_both(left@, right@, left@.len()),
        r.left == loudest(left@, left@.len()),
        r.right == loudest(right@, right@.len()),
{
    let mut r: PeakHolds = PeakHolds::new(Level { bits: 0 });
    for i in 0..left.len()
        invariant
            left.len() == right.len(),
            r.value == loudest_of_both(left@, right@, i as nat),
            r.left == loudest(left@, i as nat),
            r.right == loudest(right@, i as nat),
    {
        let l: Level = left[i].abs();
        let r_abs: Level = right[i].abs();
        r.value = r.value.max(l).max(r_abs);
        r.left = r.left.max(l);
        r.right = r.right.max(r_abs);
    }
    r
}

/// No sample of a block exceeds the block's peak, of whatever sign it is.
pub proof fn law_no_sample_exceeds_the_peak(samples: Seq<Level>, n: nat, i: int)
    requires
        0 <= i < n <= samples.len(),
    ensures
        !samples[i].absolute().above(loudest(samples, n)),
        !loudest(samples, n).nan(),
    decreases n,
{
    lemma_loudest_is_a_number(samples, (n - 1) as nat);
    if i < n - 1 {
        law_no_sample_exceeds_the_peak(samples, (n - 1) as nat, i);
    }
}

proof fn lemma_loudest_is_a_number(samples: Seq<Level>, n: nat)
    requires
        n <= samples.len(),
    ensures
        !loudest(samples, n).nan(),
    decreases n,
{
    if n > 0 {
        lemma_loudest_is_a_number(samples, (n - 1) as nat);
    }
}

} // verus!
