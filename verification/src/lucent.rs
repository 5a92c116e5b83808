//! Lucent: what it analyses in each mode, and what it tells the editor and the relays.

use crate::hold::{PeakHolds, HOLD_START_BITS};
use crate::level::Level;
use crate::masking::{
    bins_above, held_half, masked_at, own_view, peak_levels, peak_values, silence, unmasked,
    MaskingAnalyzer, SPECTRUM_BINS,
};
use crate::rank::{picked, ranking};
use crate::registry::{
    publish_masking, publish_resonance, MaskingRegistry, NamedPeak, ResonanceLists,
    ResonanceRegistry,
};
use crate::relay::{malformed, published_slot, slot_number, StateLoadError};
use crate::relay_state::copy_levels;
use crate::resonance::{
    attribute_contributors, followed, heard_at, unheard, Candidate, PeakTracker,
    SensitivityThresholds, Spectrum,
};
use crate::saved_state::{
    fits, law_saved_texts_come_back, read_state, saved_texts, state_bytes, write_state,
};
use crate::scope::FrameBuffer;
use crate::snapshot::{mode_of, phase_after, SnapMode, SnapState};
use crate::text::texts;
use vstd::prelude::*;
use vstd::string::*;

verus! {

/// How many masking areas are published.
pub const MAX_MASKING_PEAKS: usize = 3;

/// The settings of Lucent that are saved with the session.
pub struct LucentState {
    pub name: String,
}

impl LucentState {
    /// The texts in the order in which they are saved.
    pub open spec fn fields(&self) -> Seq<Seq<char>> {
        seq![self.name@]
    }

    /// The settings as bytes.
    pub fn serialize(&self) -> (r: Vec<u8>)
        requires
            fits(self.name@),
        ensures
            r@ == state_bytes(self.fields()),
    {
        let fields: Vec<String> = vec![self.name.clone()];
        proof {
            assert(texts(fields@) =~= self.fields());
        }
        write_state(&fields)
    }

    /// The settings in bytes; `None` where they are malformed.
    pub fn deserialize(data: &[u8]) -> (r: Option<LucentState>)
        ensures
            match r {
                Some(s) => saved_texts(data@, 1) == Some(s.fields()),
                None => saved_texts(data@, 1) is None,
            },
    {
        match read_state(data, 1) {
            Some(v) => {
                let mut v: Vec<String> = v;
                let ghost read = texts(v@);
                proof {
                    assert(read.len() == 1);
                }
                let s: LucentState = LucentState { name: v.remove(0) };
                proof {
                    assert(s.fields() =~= read);
                }
                Some(s)
            },
            None => None,
        }
    }
}

/// A running Lucent.
pub struct Lucent {
    /// The name as the user has set it.
    pub name: String,
    pub frame: FrameBuffer,
    pub peak_tracker: PeakTracker,
    pub relay_peak_tracker: PeakTracker,
    pub masking_analyzer: MaskingAnalyzer,
    pub snap: SnapState,
    pub holds: PeakHolds,
    pub claimed_slot: Option<u8>,
    /// The slot that the editor reads, negative where there is none.
    pub shm_slot: i32,
    pub cached_name: String,
    pub instance_key: usize,
}

/// What the editor is shown of a frame.
pub struct FrameView {
    /// Whether the spectrum of the own signal is shown; else it is silent.
    pub shows_own: bool,
    pub masking_map: Vec<Level>,
}

/// Whether `r` holds the peaks with the relays that are heard at them.
pub open spec fn attributed(
    peaks: Seq<(usize, Level)>,
    relays: Seq<(String, Vec<Level>)>,
    r: Seq<NamedPeak>,
) -> bool {
    &&& r.len() == peaks.len()
    &&& forall|i: int|
        0 <= i < peaks.len() ==> {
            &&& (#[trigger] r[i]).0 == peaks[i].0
            &&& r[i].1 == peaks[i].1
            &&& texts(r[i].2@) == heard_at(relays, peaks[i].0 as int, relays.len())
        }
}

/// Whether `r` holds the resonances of the sum of the relays, with the relays behind them.
pub open spec fn group_resonances<
    Q: Fn(&Candidate) -> Level,
    E: Fn(Level, Level, u32) -> Level,
>(
    quality: Q,
    envelope: E,
    before: PeakTracker,
    after: PeakTracker,
    sum: Spectrum,
    relays: Seq<(String, Vec<Level>)>,
    t: SensitivityThresholds,
    r: Seq<NamedPeak>,
) -> bool {
    exists|peaks: Seq<(usize, Level)>|
        #![trigger attributed(peaks, relays, r)]
        followed(quality, envelope, before, after, sum, t, peaks) && attributed(peaks, relays, r)
}

/// What one frame does to the masking analyzer, and whether `r` holds the areas to publish.
pub open spec fn masking_step(
    before: MaskingAnalyzer,
    after: MaskingAnalyzer,
    own: Option<Seq<Level>>,
    relays: Seq<(String, Vec<Level>)>,
    t: SensitivityThresholds,
    half_windows: Seq<usize>,
    r: Seq<NamedPeak>,
) -> bool {
    &&& after.masking_map@.len() == before.masking_map@.len()
    &&& forall|j: int|
        0 <= j < before.masking_map@.len() ==> #[trigger] masked_at(
            before,
            after,
            own,
            relays,
            t.masking_floor_db,
            held_half(half_windows[j]),
            t.persistence_min,
            j,
        )
    &&& loudest_areas(after, t.masking_floor_db, r)
}

/// Whether `r` holds the loudest masking areas over a floor, at most three.
pub open spec fn loudest_areas(a: MaskingAnalyzer, floor: Level, r: Seq<NamedPeak>) -> bool {
    &&& exists|order: Seq<usize>|
        #![trigger ranking(peak_levels(a.masking_map@, floor), order)]
        {
            &&& ranking(peak_levels(a.masking_map@, floor), order)
            &&& peak_values(r) == picked(
                bins_above(a.masking_map@, floor, a.masking_map@.len()),
                order,
                MAX_MASKING_PEAKS as nat,
            )
        }
    &&& forall|i: int|
        0 <= i < r.len() ==> (#[trigger] r[i]).0 < a.masking_map@.len() && r[i].2@
            == a.masking_contributors@[r[i].0 as int]@
}

/// A map that shows nothing.
pub open spec fn silent_map() -> Seq<Level> {
    Seq::new(SPECTRUM_BINS as nat, |j: int| silence())
}

impl Lucent {
    /// Every part covers all bins.
    pub open spec fn wf(&self) -> bool {
        &&& self.frame.wf()
        &&& self.peak_tracker.wf()
        &&& self.peak_tracker.persistence@.len() == SPECTRUM_BINS
        &&& self.relay_peak_tracker.wf()
        &&& self.relay_peak_tracker.persistence@.len() == SPECTRUM_BINS
        &&& self.masking_analyzer.wf()
        &&& self.masking_analyzer.masking_map@.len() == SPECTRUM_BINS
    }

    /// What stays as it is while a frame is analysed.
    pub open spec fn same_outside(&self, other: Lucent) -> bool {
        &&& self.name == other.name
        &&& self.frame == other.frame
        &&& self.snap == other.snap
        &&& self.holds == other.holds
        &&& self.claimed_slot == other.claimed_slot
        &&& self.shm_slot == other.shm_slot
        &&& self.cached_name == other.cached_name
        &&& self.instance_key == other.instance_key
    }

    /// A Lucent that has heard nothing and has no slot.
    pub fn new(instance_key: usize) -> (r: Lucent)
        ensures
            r.wf(),
            r.name@.len() == 0,
            r.cached_name@.len() == 0,
            r.claimed_slot is None,
            r.shm_slot == -1,
            r.instance_key == instance_key,
            r.snap == (SnapState { phase: 0, active: false }),
            r.holds == (PeakHolds {
                value: Level { bits: HOLD_START_BITS },
                left: Level { bits: HOLD_START_BITS },
                right: Level { bits: HOLD_START_BITS },
            }),
            r.frame.write_pos == 0,
            r.frame.input@ == Seq::new(2 * SPECTRUM_BINS as nat, |i: int| Level { bits: 0 }),
            unheard(r.peak_tracker),
            unheard(r.relay_peak_tracker),
            unmasked(r.masking_analyzer),
    {
        Lucent {
            name: String::new(),
            frame: FrameBuffer::new(2 * SPECTRUM_BINS),
            peak_tracker: PeakTracker::new(),
            relay_peak_tracker: PeakTracker::new(),
            masking_analyzer: MaskingAnalyzer::new(),
            snap: SnapState { phase: 0, active: false },
            holds: PeakHolds::new(Level { bits: HOLD_START_BITS }),
            claimed_slot: None,
            shm_slot: -1,
            cached_name: String::new(),
            instance_key,
        }
    }

    /// The resonances of the own signal with this frame.
    fn analyze_own<Q: Fn(&Candidate) -> Level, E: Fn(Level, Level, u32) -> Level>(
        &mut self,
        own: &Spectrum,
        t: &SensitivityThresholds,
        quality: &Q,
        envelope: &E,
    ) -> (r: Vec<(usize, Level)>)
        requires
            old(self).wf(),
            own.wf(),
            own.levels@.len() == SPECTRUM_BINS,
            forall|c: &Candidate| c.lo_edge <= c.hi_edge ==> call_requires(*quality, (c,)),
            forall|s: Level, p: Level, n: u32| call_requires(*envelope, (s, p, n)),
        ensures
            final(self).wf(),
            final(self).same_outside(*old(self)),
            final(self).relay_peak_tracker == old(self).relay_peak_tracker,
            final(self).masking_analyzer == old(self).masking_analyzer,
            followed(
                *quality,
                *envelope,
                old(self).peak_tracker,
                final(self).peak_tracker,
                *own,
                *t,
                r@,
            ),
    {
        self.peak_tracker.track(own, t, quality, envelope)
    }

    /// The resonances of the sum of the relays with this frame.
    fn analyze_relays<Q: Fn(&Candidate) -> Level, E: Fn(Level, Level, u32) -> Level>(
        &mut self,
        sum: &Spectrum,
        relays: &Vec<(String, Vec<Level>)>,
        t: &SensitivityThresholds,
        quality: &Q,
        envelope: &E,
    ) -> (r: Vec<NamedPeak>)
        requires
            old(self).wf(),
            sum.wf(),
            sum.levels@.len() == SPECTRUM_BINS,
            forall|c: &Candidate| c.lo_edge <= c.hi_edge ==> call_requires(*quality, (c,)),
            forall|s: Level, p: Level, n: u32| call_requires(*envelope, (s, p, n)),
        ensures
            final(self).wf(),
            final(self).same_outside(*old(self)),
            final(self).peak_tracker == old(self).peak_tracker,
            final(self).masking_analyzer == old(self).masking_analyzer,
            group_resonances(
                *quality,
                *envelope,
                old(self).relay_peak_tracker,
                final(self).relay_peak_tracker,
                *sum,
                relays@,
                *t,
                r@,
            ),
    {
        let peaks: Vec<(usize, Level)> = self.relay_peak_tracker.track(sum, t, quality, envelope);
        let r: Vec<NamedPeak> = attribute_contributors(&peaks, relays);
        proof {
            assert(attributed(peaks@, relays@, r@));
        }
        r
    }

    /// The masking areas of this frame.
    fn analyze_masking(
        &mut self,
        own: Option<&Vec<Level>>,
        relays: &Vec<(String, Vec<Level>)>,
        t: &SensitivityThresholds,
        half_windows: &Vec<usize>,
    ) -> (r: Vec<NamedPeak>)
        requires
            old(self).wf(),
            half_windows@.len() == SPECTRUM_BINS,
        ensures
            final(self).wf(),
            final(self).same_outside(*old(self)),
            final(self).peak_tracker == old(self).peak_tracker,
            final(self).relay_peak_tracker == old(self).relay_peak_tracker,
            masking_step(
                old(self).masking_analyzer,
                final(self).masking_analyzer,
                own_view(own),
                relays@,
                *t,
                half_windows@,
                r@,
            ),
    {
        self.masking_analyzer.compute_masking(
            own,
            relays,
            t.masking_floor_db,
            half_windows,
            t.persistence_min,
        );
        self.masking_analyzer.top_peaks(MAX_MASKING_PEAKS, t.masking_floor_db)
    }

    /// Analyses one frame as the mode asks: 0 the own signal alone, 1 the own signal and the
    /// relays, any other the relays alone.
    ///
    /// `own` is the spectrum of the own signal and `sum` that of all relays together; the
    /// findings are published under the key of this instance.
    pub fn analyze_frame<Q: Fn(&Candidate) -> Level, E: Fn(Level, Level, u32) -> Level>(
        &mut self,
        mode: i64,
        own: &Spectrum,
        sum: &Spectrum,
        relays: &Vec<(String, Vec<Level>)>,
        t: &SensitivityThresholds,
        half_windows: &Vec<usize>,
        quality: &Q,
        envelope: &E,
        resonance: &mut ResonanceRegistry,
        masking: &mut MaskingRegistry,
    ) -> (view: FrameView)
        requires
            old(self).wf(),
            own.wf(),
            own.levels@.len() == SPECTRUM_BINS,
            sum.wf(),
            sum.levels@.len() == SPECTRUM_BINS,
            half_windows@.len() == SPECTRUM_BINS,
            forall|c: &Candidate| c.lo_edge <= c.hi_edge ==> call_requires(*quality, (c,)),
            forall|s: Level, p: Level, n: u32| call_requires(*envelope, (s, p, n)),
        ensures
            final(self).wf(),
            final(self).same_outside(*old(self)),
            view.shows_own == (mode == 0 || mode == 1),
            forall|k: usize|
                k != old(self).instance_key ==> #[trigger] final(resonance).lists_of(k) == old(
                    resonance,
                ).lists_of(k),
            forall|k: usize|
                k != old(self).instance_key ==> #[trigger] final(masking).peaks_of(k) == old(
                    masking,
                ).peaks_of(k),
            final(resonance).map@.contains_key(old(self).instance_key),
            final(masking).map@.contains_key(old(self).instance_key),
            ({
                let lists = final(resonance).map@[old(self).instance_key];
                &&& if mode == 0 || mode == 1 {
                    followed(
                        *quality,
                        *envelope,
                        old(self).peak_tracker,
                        final(self).peak_tracker,
                        *own,
                        *t,
                        lists.own@,
                    )
                } else {
                    final(self).peak_tracker == old(self).peak_tracker && lists.own@.len() == 0
                }
                &&& if mode != 0 {
                    group_resonances(
                        *quality,
                        *envelope,
                        old(self).relay_peak_tracker,
                        final(self).relay_peak_tracker,
                        *sum,
                        relays@,
                        *t,
                        lists.relay@,
                    )
                } else {
                    final(self).relay_peak_tracker == old(self).relay_peak_tracker
                        && lists.relay@.len() == 0
                }
            }),
            ({
                let areas = final(masking).map@[old(self).instance_key]@;
                if mode != 0 {
                    &&& masking_step(
                        old(self).masking_analyzer,
                        final(self).masking_analyzer,
                        if mode == 1 {
                            Some(own.levels@)
                        } else {
                            None
                        },
                        relays@,
                        *t,
                        half_windows@,
                        areas,
                    )
                    &&& view.masking_map@ == final(self).masking_analyzer.masking_map@
                } else {
                    &&& final(self).masking_analyzer == old(self).masking_analyzer
                    &&& areas.len() == 0
                    &&& view.masking_map@ == silent_map()
                }
            }),
    {
        let key: usize = self.instance_key;
        if mode == 0 {
            let found: Vec<(usize, Level)> = self.analyze_own(own, t, quality, envelope);
            publish_resonance(resonance, key, ResonanceLists { own: found, relay: Vec::new() });
            publish_masking(masking, key, Vec::new());
            let masking_map: Vec<Level> = vec![Level::silence(); SPECTRUM_BINS];
            proof {
                assert(masking_map@ =~= silent_map());
            }
            FrameView { shows_own: true, masking_map }
        } else if mode == 1 {
            let found: Vec<(usize, Level)> = self.analyze_own(own, t, quality, envelope);
            let group: Vec<NamedPeak> = self.analyze_relays(sum, relays, t, quality, envelope);
            publish_resonance(resonance, key, ResonanceLists { own: found, relay: group });
            let areas: Vec<NamedPeak> = self.analyze_masking(
                Some(&own.levels),
                relays,
                t,
                half_windows,
            );
            publish_masking(masking, key, areas);
            FrameView {
                shows_own: true,
                masking_map: copy_levels(&self.masking_analyzer.masking_map),
            }
        } else {
            let group: Vec<NamedPeak> = self.analyze_relays(sum, relays, t, quality, envelope);
            publish_resonance(resonance, key, ResonanceLists { own: Vec::new(), relay: group });
            let areas: Vec<NamedPeak> = self.analyze_masking(None, relays, t, half_windows);
            publish_masking(masking, key, areas);
            FrameView {
                shows_own: false,
                masking_map: copy_levels(&self.masking_analyzer.masking_map),
            }
        }
    }

    /// Claims a slot where none is held; `offered` is what the hub gives, where there is one.
    pub fn claim_slot(&mut self, offered: Option<u8>)
        requires
            old(self).wf(),
        ensures
            final(self).wf(),
            final(self).claimed_slot == (if old(self).claimed_slot is Some {
                old(self).claimed_slot
            } else {
                offered
            }),
            final(self).shm_slot == slot_number(final(self).claimed_slot),
            final(self).name == old(self).name,
            final(self).frame == old(self).frame,
            final(self).peak_tracker == old(self).peak_tracker,
            final(self).relay_peak_tracker == old(self).relay_peak_tracker,
            final(self).masking_analyzer == old(self).masking_analyzer,
            final(self).snap == old(self).snap,
            final(self).holds == old(self).holds,
            final(self).cached_name == old(self).cached_name,
            final(self).instance_key == old(self).instance_key,
    {
        if self.claimed_slot.is_none() {
            self.claimed_slot = offered;
        }
        self.shm_slot = published_slot(self.claimed_slot);
    }

    /// Gives the slot back.
    pub fn release(&mut self) -> (r: Option<u8>)
        requires
            old(self).wf(),
        ensures
            r == old(self).claimed_slot,
            final(self).wf(),
            final(self).claimed_slot is None,
            final(self).shm_slot == -1,
            final(self).name == old(self).name,
            final(self).frame == old(self).frame,
            final(self).peak_tracker == old(self).peak_tracker,
            final(self).relay_peak_tracker == old(self).relay_peak_tracker,
            final(self).masking_analyzer == old(self).masking_analyzer,
            final(self).snap == old(self).snap,
            final(self).holds == old(self).holds,
            final(self).cached_name == old(self).cached_name,
            final(self).instance_key == old(self).instance_key,
    {
        let slot: Option<u8> = self.claimed_slot;
        self.claimed_slot = None;
        self.shm_slot = -1;
        slot
    }

    /// Starts a block: takes over the name, and starts the holds again where that was asked.
    pub fn begin_block(&mut self, reset_peak: bool)
        requires
            old(self).wf(),
        ensures
            final(self).wf(),
            final(self).cached_name@ == old(self).name@,
            final(self).holds == (if reset_peak {
                PeakHolds {
                    value: Level { bits: HOLD_START_BITS },
                    left: Level { bits: HOLD_START_BITS },
                    right: Level { bits: HOLD_START_BITS },
                }
            } else {
                old(self).holds
            }),
            final(self).name == old(self).name,
            final(self).frame == old(self).frame,
            final(self).peak_tracker == old(self).peak_tracker,
            final(self).relay_peak_tracker == old(self).relay_peak_tracker,
            final(self).masking_analyzer == old(self).masking_analyzer,
            final(self).snap == old(self).snap,
            final(self).claimed_slot == old(self).claimed_slot,
            final(self).shm_slot == old(self).shm_slot,
            final(self).instance_key == old(self).instance_key,
    {
        self.cached_name = self.name.clone();
        if reset_peak {
            self.holds = PeakHolds::new(Level { bits: HOLD_START_BITS });
        }
    }

    /// Ends a block: takes in the peaks of both channels and gives the louder of them.
    pub fn end_block(&mut self, left: Level, right: Level) -> (value: Level)
        requires
            old(self).wf(),
        ensures
            value == left.larger(right),
            final(self).wf(),
            final(self).holds == old(self).holds.after_block(value, left, right),
            final(self).peak_tracker == old(self).peak_tracker,
            final(self).relay_peak_tracker == old(self).relay_peak_tracker,
            final(self).masking_analyzer == old(self).masking_analyzer,
            final(self).name == old(self).name,
            final(self).frame == old(self).frame,
            final(self).snap == old(self).snap,
            final(self).claimed_slot == old(self).claimed_slot,
            final(self).shm_slot == old(self).shm_slot,
            final(self).cached_name == old(self).cached_name,
            final(self).instance_key == old(self).instance_key,
    {
        let value: Level = left.max(right);
        self.holds.update(value, left, right);
        value
    }

    /// Takes the complete spectrum of the capture's phase: gives which one it is, and whether
    /// the capture is over and starts afresh.
    pub fn snap_captured(&mut self) -> (r: (SnapMode, bool))
        requires
            old(self).wf(),
        ensures
            r.0 == mode_of(old(self).snap.phase),
            r.1 == (phase_after(old(self).snap.phase) == 0),
            final(self).wf(),
            final(self).snap == old(self).snap.after_capture(),
            final(self).name == old(self).name,
            final(self).frame == old(self).frame,
            final(self).peak_tracker == old(self).peak_tracker,
            final(self).relay_peak_tracker == old(self).relay_peak_tracker,
            final(self).masking_analyzer == old(self).masking_analyzer,
            final(self).holds == old(self).holds,
            final(self).claimed_slot == old(self).claimed_slot,
            final(self).shm_slot == old(self).shm_slot,
            final(self).cached_name == old(self).cached_name,
            final(self).instance_key == old(self).instance_key,
    {
        let mode: SnapMode = self.snap.captured();
        (mode, self.snap.phase == 0)
    }

    /// The name that relays know this instance by: the one shown for its slot, or its own
    /// where it has none.
    pub fn advertised_name(&self, shown: &String) -> (r: String)
        ensures
            r@ == (if self.claimed_slot is Some {
                shown@
            } else {
                self.cached_name@
            }),
    {
        if self.claimed_slot.is_some() {
            shown.clone()
        } else {
            self.cached_name.clone()
        }
    }

    /// The settings to save, as bytes.
    pub fn save_state(&self) -> (r: Vec<u8>)
        requires
            fits(self.name@),
        ensures
            r@ == state_bytes(seq![self.name@]),
    {
        LucentState { name: self.name.clone() }.serialize()
    }

    /// Takes the settings of a saved state, unless it is malformed.
    pub fn load_state(&mut self, data: &[u8]) -> (r: Result<(), StateLoadError>)
        requires
            old(self).wf(),
        ensures
            final(self).wf(),
            match saved_texts(data@, 1) {
                Some(fields) => {
                    &&& r is Ok
                    &&& fields == seq![final(self).name@]
                    &&& *final(self) == (Lucent { name: final(self).name, ..*old(self) })
                },
                None => malformed(r, "LucentState"@) && *final(self) == *old(self),
            },
    {
        match LucentState::deserialize(data) {
            Some(s) => {
                self.name = s.name;
                Ok(())
            },
            None => Err(StateLoadError::Malformed("LucentState")),
        }
    }

    /// Takes over the name once the saved state has changed.
    pub fn state_changed(&mut self)
        requires
            old(self).wf(),
        ensures
            final(self).wf(),
            final(self).cached_name@ == old(self).name@,
            final(self).same_but_cached_name(*old(self)),
    {
        self.cached_name = self.name.clone();
    }

    /// What stays as it is while the name is taken over.
    pub open spec fn same_but_cached_name(&self, other: Lucent) -> bool {
        &&& self.name == other.name
        &&& self.frame == other.frame
        &&& self.peak_tracker == other.peak_tracker
        &&& self.relay_peak_tracker == other.relay_peak_tracker
        &&& self.masking_analyzer == other.masking_analyzer
        &&& self.snap == other.snap
        &&& self.holds == other.holds
        &&& self.claimed_slot == other.claimed_slot
        &&& self.shm_slot == other.shm_slot
        &&& self.instance_key == other.instance_key
    }
}

/// A name that was saved comes back as it was when it is loaded.
pub proof fn law_saved_name_loads_back(name: Seq<char>)
    requires
        fits(name),
    ensures
        saved_texts(state_bytes(seq![name]), 1) == Some(seq![name]),
{
    let fields = seq![name];
    assert forall|k: int| 0 <= k < fields.len() implies fits(#[trigger] fields[k]) by {}
    law_saved_texts_come_back(fields);
}

} // verus!
