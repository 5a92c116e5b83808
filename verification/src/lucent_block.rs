//! What a block of Lucent leaves for the editor: the spectra of the own signal and its
//! correlation.

use crate::equilibrium::{unity, ONE_BITS, POWER_FLOOR_BITS};
use crate::equilibrium_chain::MINUS_ONE_BITS;
use crate::level::Level;
use crate::lucent::silent_map;
use crate::masking::SPECTRUM_BINS;
use crate::relay_state::{blend_levels, blended, copy_levels};
use vstd::prelude::*;

verus! {

/// The bit pattern of `-80.0`: a frame up to it does not enter the average.
pub const ENERGY_FLOOR_BITS: u32 = 0xc2a0_0000;

/// The spectra of the own signal that the editor shows.
pub struct ShownSpectra {
    /// The last frame.
    pub bins: Vec<Level>,
    /// The frames so far, the older the fainter.
    pub average: Vec<Level>,
}

impl ShownSpectra {
    /// Both spectra cover all bins.
    pub open spec fn wf(&self) -> bool {
        &&& self.bins@.len() == SPECTRUM_BINS
        &&& self.average@.len() == SPECTRUM_BINS
    }

    /// Nothing heard yet.
    pub fn new() -> (r: ShownSpectra)
        ensures
            r.wf(),
            r.bins@ == silent_map(),
            r.average@ == silent_map(),
    {
        let bins: Vec<Level> = vec![Level::silence(); SPECTRUM_BINS];
        let average: Vec<Level> = vec![Level::silence(); SPECTRUM_BINS];
        proof {
            assert(bins@ =~= silent_map());
            assert(average@ =~= silent_map());
        }
        ShownSpectra { bins, average }
    }

    /// Shows a frame, or silence where the own signal is not shown.
    ///
    /// A frame that does not count stays out of the average; `mix` mixes what a bin was on
    /// average with what it is in the frame.
    pub fn show_frame<M: Fn(Level, Level) -> Level>(
        &mut self,
        shows_own: bool,
        frame: &Vec<Level>,
        counts: bool,
        mix: &M,
    )
        requires
            old(self).wf(),
            frame@.len() == SPECTRUM_BINS,
            forall|a: Level, x: Level| call_requires(*mix, (a, x)),
        ensures
            final(self).wf(),
            if shows_own {
                &&& final(self).bins@ == frame@
                &&& averaged(*mix, old(self).average@, frame@, counts, final(self).average@)
            } else {
                final(self).bins@ == silent_map() && final(self).average@ == silent_map()
            },
    {
        if shows_own {
            self.bins = copy_levels(frame);
            if counts {
                self.average = blend_levels(mix, &self.average, frame);
            }
        } else {
            let silent: ShownSpectra = ShownSpectra::new();
            self.bins = silent.bins;
            self.average = silent.average;
        }
    }
}

/// Whether `after` is the average behind a frame: the mix where the frame counts, else what it was.
pub open spec fn averaged<M: Fn(Level, Level) -> Level>(
    mix: M,
    before: Seq<Level>,
    frame: Seq<Level>,
    counts: bool,
    after: Seq<Level>,
) -> bool {
    if counts {
        blended(mix, before, frame, after)
    } else {
        after == before
    }
}

/// Whether a frame counts: its energy is above -80 dB.
pub open spec fn is_heard(energy_db: Level) -> bool {
    energy_db.above(Level { bits: ENERGY_FLOOR_BITS })
}

/// Whether a frame of the given energy counts.
pub fn counts_frame(energy_db: Level) -> (r: bool)
    ensures
        r == is_heard(energy_db),
{
    energy_db.gt(Level { bits: ENERGY_FLOOR_BITS })
}

/// Whether `r` is the correlation of the channels: one where either is silent, and never past
/// one.
pub open spec fn block_correlated<C: Fn() -> Level>(
    power_l: Level,
    power_r: Level,
    ratio: C,
    r: Level,
) -> bool {
    let floor = Level { bits: POWER_FLOOR_BITS };
    let lo = Level { bits: MINUS_ONE_BITS };
    if power_l.above(floor) && power_r.above(floor) {
        exists|q: Level| #[trigger] call_ensures(ratio, (), q) && r == q.clamped(lo, unity())
    } else {
        r == unity()
    }
}

/// The correlation of the channels of a block; `ratio` divides their common power by the root
/// of the product of their own.
pub fn block_correlation<C: Fn() -> Level>(power_l: Level, power_r: Level, ratio: C) -> (r: Level)
    requires
        call_requires(ratio, ()),
    ensures
        block_correlated(power_l, power_r, ratio, r),
{
    let floor: Level = Level { bits: POWER_FLOOR_BITS };
    if power_l.gt(floor) && power_r.gt(floor) {
        let q: Level = ratio();
        q.clamp(Level { bits: MINUS_ONE_BITS }, Level { bits: ONE_BITS })
    } else {
        Level { bits: ONE_BITS }
    }
}

/// While nothing is heard the average stays as it was, however long that lasts.
pub proof fn law_silence_keeps_the_average<M: Fn(Level, Level) -> Level>(
    mix: M,
    averages: Seq<Seq<Level>>,
    frames: Seq<Seq<Level>>,
    energies: Seq<Level>,
)
    requires
        frames.len() == energies.len(),
        averages.len() == energies.len() + 1,
        forall|i: int|
            0 <= i < energies.len() ==> averaged(
                mix,
                averages[i],
                frames[i],
                is_heard(#[trigger] energies[i]),
                averages[i + 1],
            ),
        forall|i: int| 0 <= i < energies.len() ==> !is_heard(#[trigger] energies[i]),
    ensures
        averages.last() == averages[0],
    decreases energies.len(),
{
    if energies.len() > 0 {
        let n: int = energies.len() - 1;
        assert(averages.take(n + 1).last() == averages[n]);
        law_silence_keeps_the_average(mix, averages.take(n + 1), frames.take(n), energies.take(n));
        assert(!is_heard(energies[n]));
    }
}

} // verus!
