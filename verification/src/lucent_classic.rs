//! The analyzer of Lucent in its simple form: fixed thresholds and nameless relays.

use crate::level::{Level, HEARD_BITS};
use crate::masking::{
    bare_sources, bare_spectra, find_loudest_pair, find_spread, found_level, loudest_pair,
    own_view, silence, sources_at, spread_level, Source, SPECTRUM_BINS,
};
use crate::relay_state::copy_levels;
use crate::resonance::{inside, local_max, remembered, resonances, unheard, PeakTracker};
use vstd::prelude::*;

verus! {

/// How many bins a collision spreads to either side.
pub const SPREAD_BINS: usize = 2;

/// The bit pattern of `6.0`, the prominence that a peak must exceed.
pub const PROMINENCE_BITS: u32 = 0x40c0_0000;

/// The bit pattern of `2.0`, the score that a resonance must exceed.
pub const SCORE_BITS: u32 = 0x4000_0000;

/// The persistence that a resonance must exceed.
pub const PERSISTENCE_MIN: u32 = 2;

/// Where the own signal fights the energy of the relays, bin by bin.
pub struct MaskingAnalyzer {
    pub masking_map: Vec<Level>,
    pub scratch: Vec<Level>,
}

/// The level above which a source counts.
pub open spec fn floor() -> Level {
    Level { bits: HEARD_BITS }
}

/// How loud the loudest two sources collide at a bin.
pub open spec fn collision_at(
    own: Option<Seq<Level>>,
    spectra: Seq<Seq<Level>>,
    j: int,
) -> Level {
    let s = sources_at(own, spectra, floor(), j);
    found_level(s, loudest_pair(s))
}

/// The collision level of each of `n` bins.
pub open spec fn collisions(
    own: Option<Seq<Level>>,
    spectra: Seq<Seq<Level>>,
    n: nat,
) -> Seq<Level> {
    Seq::new(n, |j: int| collision_at(own, spectra, j))
}

impl MaskingAnalyzer {
    /// Both lists cover all bins.
    pub open spec fn wf(&self) -> bool {
        self.scratch@.len() == self.masking_map@.len()
    }

    /// An analyzer that has heard nothing.
    pub fn new() -> (r: MaskingAnalyzer)
        ensures
            r.wf(),
            r.masking_map@ == Seq::new(SPECTRUM_BINS as nat, |j: int| silence()),
            r.scratch@ == Seq::new(SPECTRUM_BINS as nat, |j: int| silence()),
    {
        let r: MaskingAnalyzer = MaskingAnalyzer {
            masking_map: vec![Level::silence(); SPECTRUM_BINS],
            scratch: vec![Level::silence(); SPECTRUM_BINS],
        };
        proof {
            assert(r.masking_map@ =~= Seq::new(SPECTRUM_BINS as nat, |j: int| silence()));
            assert(r.scratch@ =~= Seq::new(SPECTRUM_BINS as nat, |j: int| silence()));
        }
        r
    }

    /// Finds the collisions of one frame; the own spectrum takes part where it is given.
    pub fn compute_masking(
        &mut self,
        own_spectrum: Option<&Vec<Level>>,
        relay_spectra: &Vec<Vec<Level>>,
    )
        requires
            old(self).wf(),
        ensures
            final(self).wf(),
            final(self).scratch@ == collisions(
                own_view(own_spectrum),
                bare_spectra(relay_spectra@),
                old(self).masking_map@.len(),
            ),
            final(self).masking_map@ == Seq::new(
                old(self).masking_map@.len(),
                |j: int| spread_level(final(self).scratch@, j, SPREAD_BINS as int),
            ),
    {
        let n: usize = self.masking_map.len();
        let mut scratch: Vec<Level> = Vec::new();
        for j in 0..n
            invariant
                scratch@ == collisions(
                    own_view(own_spectrum),
                    bare_spectra(relay_spectra@),
                    j as nat,
                ),
        {
            let s: Vec<Source> = bare_sources(
                own_spectrum,
                relay_spectra,
                Level { bits: HEARD_BITS },
                j,
            );
            let (_pair, level) = find_loudest_pair(&s);
            scratch.push(level);
            proof {
                assert(scratch@ =~= collisions(
                    own_view(own_spectrum),
                    bare_spectra(relay_spectra@),
                    j as nat + 1,
                ));
            }
        }
        let mut map: Vec<Level> = Vec::new();
        for j in 0..n
            invariant
                scratch.len() == n,
                map@ == Seq::new(
                    j as nat,
                    |k: int| spread_level(scratch@, k, SPREAD_BINS as int),
                ),
        {
            let level: Level = match find_spread(&scratch, j, SPREAD_BINS) {
                Some(k) => scratch[k],
                None => Level::silence(),
            };
            map.push(level);
            proof {
                assert(map@ =~= Seq::new(
                    j as nat + 1,
                    |k: int| spread_level(scratch@, k, SPREAD_BINS as int),
                ));
            }
        }
        self.scratch = scratch;
        self.masking_map = map;
    }
}

/// The peaks below the bin `n`: local maxima whose prominence exceeds the threshold.
pub open spec fn prominent(
    spectrum: Seq<Level>,
    prominences: Seq<Level>,
    n: int,
) -> Seq<(usize, Level)>
    decreases n,
{
    if n <= 1 {
        Seq::empty()
    } else {
        let before = prominent(spectrum, prominences, n - 1);
        if local_max(spectrum, n - 1) && prominences[n - 1].above(
            Level { bits: PROMINENCE_BITS },
        ) {
            before.push(((n - 1) as usize, prominences[n - 1]))
        } else {
            before
        }
    }
}

/// The peaks of a spectrum; `prominences` holds for each bin its level over its neighbours.
pub fn find_peaks(spectrum: &Vec<Level>, prominences: &Vec<Level>) -> (r: Vec<(usize, Level)>)
    requires
        prominences.len() == spectrum.len(),
    ensures
        r@ == prominent(spectrum@, prominences@, spectrum.len() - 1),
        inside(r@, spectrum.len() as int),
{
    let mut r: Vec<(usize, Level)> = Vec::new();
    let n: usize = spectrum.len();
    if n < 3 {
        proof {
            reveal_with_fuel(prominent, 2);
        }
        return r;
    }
    let mut k: usize = 1;
    while k < n - 1
        invariant
            3 <= n,
            n == spectrum.len(),
            prominences.len() == n,
            1 <= k <= n - 1,
            r@ == prominent(spectrum@, prominences@, k as int),
            inside(r@, n as int),
        decreases n - k,
    {
        if spectrum[k].gt(spectrum[k - 1]) && spectrum[k].gt(spectrum[k + 1])
            && prominences[k].gt(Level { bits: PROMINENCE_BITS }) {
            r.push((k, prominences[k]));
        }
        k = k + 1;
    }
    r
}

/// The resonances by falling score, at most sixteen.
pub fn resonance_peaks(tracker: &PeakTracker) -> (r: Vec<(usize, Level)>)
    requires
        tracker.wf(),
    ensures
        resonances(*tracker, Level { bits: SCORE_BITS }, PERSISTENCE_MIN, r@),
{
    tracker.resonances_over(Level { bits: SCORE_BITS }, PERSISTENCE_MIN)
}

/// The analysis of one instance.
pub struct Analysis {
    pub peak_tracker: PeakTracker,
    pub masking_analyzer: MaskingAnalyzer,
    /// The resonances that are shown.
    pub resonance_hub: Vec<(usize, Level)>,
}

/// What the editor is shown of a frame.
pub struct FrameView {
    /// Whether the spectrum of the own signal is shown; else it is silent.
    pub shows_own: bool,
    pub masking_map: Vec<Level>,
}

impl Analysis {
    /// Every part covers all bins.
    pub open spec fn wf(&self) -> bool {
        &&& self.peak_tracker.wf()
        &&& self.peak_tracker.persistence@.len() == SPECTRUM_BINS
        &&& self.masking_analyzer.wf()
        &&& self.masking_analyzer.masking_map@.len() == SPECTRUM_BINS
    }

    /// An analysis that has heard nothing.
    pub fn new() -> (r: Analysis)
        ensures
            r.wf(),
            unheard(r.peak_tracker),
            r.masking_analyzer.masking_map@ == Seq::new(SPECTRUM_BINS as nat, |j: int| silence()),
            r.masking_analyzer.scratch@ == Seq::new(SPECTRUM_BINS as nat, |j: int| silence()),
            r.resonance_hub@.len() == 0,
    {
        Analysis {
            peak_tracker: PeakTracker::new(),
            masking_analyzer: MaskingAnalyzer::new(),
            resonance_hub: Vec::new(),
        }
    }

    /// Analyses one frame as the mode asks: 0 the own signal alone, 1 the own signal and the
    /// relays, any other the relays alone.
    pub fn analyze_frame<E: Fn(Level, Level, u32) -> Level>(
        &mut self,
        mode: i64,
        own: &Vec<Level>,
        prominences: &Vec<Level>,
        relays: &Vec<Vec<Level>>,
        envelope: &E,
    ) -> (view: FrameView)
        requires
            old(self).wf(),
            own@.len() == SPECTRUM_BINS,
            prominences@.len() == SPECTRUM_BINS,
            forall|s: Level, p: Level, n: u32| call_requires(*envelope, (s, p, n)),
        ensures
            final(self).wf(),
            view.shows_own == (mode == 0 || mode == 1),
            if mode == 0 || mode == 1 {
                &&& remembered(
                    *envelope,
                    old(self).peak_tracker,
                    final(self).peak_tracker,
                    prominent(own@, prominences@, SPECTRUM_BINS - 1),
                )
                &&& resonances(
                    final(self).peak_tracker,
                    Level { bits: SCORE_BITS },
                    PERSISTENCE_MIN,
                    final(self).resonance_hub@,
                )
            } else {
                final(self).peak_tracker == old(self).peak_tracker
                    && final(self).resonance_hub@.len() == 0
            },
            if mode != 0 {
                let own_part = if mode == 1 {
                    Some(own@)
                } else {
                    None
                };
                &&& final(self).masking_analyzer.scratch@ == collisions(
                    own_part,
                    bare_spectra(relays@),
                    SPECTRUM_BINS as nat,
                )
                &&& final(self).masking_analyzer.masking_map@ == Seq::new(
                    SPECTRUM_BINS as nat,
                    |j: int|
                        spread_level(
                            final(self).masking_analyzer.scratch@,
                            j,
                            SPREAD_BINS as int,
                        ),
                )
                &&& view.masking_map@ == final(self).masking_analyzer.masking_map@
            } else {
                &&& final(self).masking_analyzer == old(self).masking_analyzer
                &&& view.masking_map@ == Seq::new(SPECTRUM_BINS as nat, |j: int| silence())
            },
    {
        if mode == 0 || mode == 1 {
            let peaks: Vec<(usize, Level)> = find_peaks(own, prominences);
            self.peak_tracker.update(&peaks, envelope);
            self.resonance_hub = resonance_peaks(&self.peak_tracker);
        } else {
            self.resonance_hub = Vec::new();
        }
        if mode == 0 {
            let masking_map: Vec<Level> = vec![Level::silence(); SPECTRUM_BINS];
            proof {
                assert(masking_map@ =~= Seq::new(SPECTRUM_BINS as nat, |j: int| silence()));
            }
            return FrameView { shows_own: true, masking_map };
        }
        if mode == 1 {
            self.masking_analyzer.compute_masking(Some(own), relays);
        } else {
            self.masking_analyzer.compute_masking(None, relays);
        }
        FrameView {
            shows_own: mode == 1,
            masking_map: copy_levels(&self.masking_analyzer.masking_map),
        }
    }
}

} // verus!
