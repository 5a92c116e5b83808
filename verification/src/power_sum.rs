//! The spectrum of several tracks together.

use crate::aurum::FAINT_BITS;
use crate::level::{Level, SILENCE_BITS};
use crate::masking::SPECTRUM_BINS;
use vstd::prelude::*;

verus! {

/// The level of a spectrum in a bin: silence past its end.
pub open spec fn level_at(s: Seq<Level>, bin: int) -> Level {
    if 0 <= bin < s.len() {
        s[bin]
    } else {
        Level { bits: SILENCE_BITS }
    }
}

/// The levels of the spectra in a bin.
pub open spec fn levels_at(spectra: Seq<Vec<Level>>, bin: int) -> Seq<Level> {
    Seq::new(spectra.len(), |i: int| level_at(spectra[i]@, bin))
}

/// Whether `r` is the level of the spectra together in a bin: their summed power in dB, or silence
/// where that is too faint.
pub open spec fn summed_at<P: Fn(&Vec<Level>) -> Level, D: Fn(Level) -> Level>(
    spectra: Seq<Vec<Level>>,
    bin: int,
    power: P,
    to_db: D,
    r: Level,
) -> bool {
    exists|levels: Vec<Level>, sum: Level|
        {
            &&& levels@ == levels_at(spectra, bin)
            &&& #[trigger] call_ensures(power, (&levels,), sum)
            &&& if (Level { bits: FAINT_BITS }).above(sum) {
                r == (Level { bits: SILENCE_BITS })
            } else {
                call_ensures(to_db, (sum,), r)
            }
        }
}

/// The levels of the spectra in a bin.
fn gather(spectra: &Vec<Vec<Level>>, bin: usize) -> (r: Vec<Level>)
    ensures
        r@ == levels_at(spectra@, bin as int),
{
    let mut r: Vec<Level> = Vec::new();
    for i in 0..spectra.len()
        invariant
            r@ == levels_at(spectra@, bin as int).take(i as int),
    {
        let s: &Vec<Level> = &spectra[i];
        let l: Level = if bin < s.len() {
            s[bin]
        } else {
            Level { bits: SILENCE_BITS }
        };
        r.push(l);
        proof {
            let all = levels_at(spectra@, bin as int);
            assert(all.take(i as int + 1) =~= all.take(i as int).push(all[i as int]));
        }
    }
    proof {
        let all = levels_at(spectra@, bin as int);
        assert(all.take(spectra@.len() as int) =~= all);
    }
    r
}

/// The spectrum of several tracks together: silence where there are none, else the sum of their
/// powers in every bin.  `power` adds the powers of levels, `to_db` turns a power into a level.
pub fn power_sum_spectrum<P: Fn(&Vec<Level>) -> Level, D: Fn(Level) -> Level>(
    spectra: &Vec<Vec<Level>>,
    power: P,
    to_db: D,
) -> (r: Vec<Level>)
    requires
        forall|v: &Vec<Level>| call_requires(power, (v,)),
        forall|l: Level| call_requires(to_db, (l,)),
    ensures
        r@.len() == SPECTRUM_BINS,
        spectra@.len() == 0 ==> forall|j: int|
            0 <= j < SPECTRUM_BINS ==> #[trigger] r@[j] == (Level { bits: SILENCE_BITS }),
        spectra@.len() > 0 ==> forall|j: int|
            0 <= j < SPECTRUM_BINS ==> summed_at(spectra@, j, power, to_db, #[trigger] r@[j]),
{
    let mut r: Vec<Level> = Vec::new();
    for j in 0..SPECTRUM_BINS
        invariant
            forall|v: &Vec<Level>| call_requires(power, (v,)),
            forall|l: Level| call_requires(to_db, (l,)),
            r@.len() == j,
            spectra@.len() == 0 ==> forall|k: int|
                0 <= k < j ==> #[trigger] r@[k] == (Level { bits: SILENCE_BITS }),
            spectra@.len() > 0 ==> forall|k: int|
                0 <= k < j ==> summed_at(spectra@, k, power, to_db, #[trigger] r@[k]),
    {
        if spectra.len() == 0 {
            r.push(Level { bits: SILENCE_BITS });
        } else {
            let levels: Vec<Level> = gather(spectra, j);
            let sum: Level = power(&levels);
            proof {
                assert(call_ensures(power, (&levels,), sum));
            }
            let l: Level = if (Level { bits: FAINT_BITS }).gt(sum) {
                Level { bits: SILENCE_BITS }
            } else {
                to_db(sum)
            };
            proof {
                assert(summed_at(spectra@, j as int, power, to_db, l));
            }
            r.push(l);
        }
    }
    r
}

} // verus!
