//! What holds of every frame and every block of Lucent.

use crate::collision_laws::{
    collides, law_a_collision_is_named_after_its_two_tracks, law_top_bins_are_the_loudest, nothing,
    quieter,
};
use crate::level::Level;
use crate::lucent::{attributed, loudest_areas, masking_step, FrameView, Lucent};
use crate::lucent_block::{block_correlation, counts_frame, ShownSpectra};
use crate::lucent_classic::{collisions, prominent};
use crate::masking::{
    bare_spectra, bins_above, collision, compared, found_level, held_half,
    law_loudest_pair_is_loudest, law_spread_is_the_loudest_nearby, loudest_in, loudest_pair,
    masked_at, own_source, own_view, peak_levels, peak_values, relay_sources, sources_at,
    spread_from, window_hi, window_lo, Source,
};
use crate::mode::{mode_label, mode_name, next_mode};
use crate::power_sum::power_sum_spectrum;
use crate::rank::{picked, ranking};
use crate::registry::{
    named_peaks, publish_masking, publish_resonance, read_masking, read_resonance, remove_masking,
    remove_resonance, MaskingRegistry, NamedPeak, ResonanceLists, ResonanceRegistry,
};
use crate::relay::{LucentRelay, StateLoadError};
use crate::resonance::{followed, heard_at, Candidate, SensitivityThresholds, Spectrum};
use crate::resonance_laws::{
    law_contributors_are_the_tracks_heard, law_listed_resonances_last_and_score,
};
use crate::saved_state::fits;
use crate::snapshot::SnapMode;
use crate::text::texts;
use vstd::prelude::*;
use vstd::string::*;

verus! {

/// The standalone mode looks at the own signal alone: no relay is analysed, nothing masks, and the
/// map is silent.  The relay mode looks at the relays alone: nothing of the own signal is shown or
/// listed.  Every other instance's findings stay as they were.
pub proof fn law_each_mode_analyses_its_signals<
    Q: Fn(&Candidate) -> Level,
    E: Fn(Level, Level, u32) -> Level,
>(
    l: &mut Lucent,
    mode: i64,
    own: &Spectrum,
    sum: &Spectrum,
    relays: &Vec<(String, Vec<Level>)>,
    t: &SensitivityThresholds,
    halves: &Vec<usize>,
    quality: &Q,
    envelope: &E,
    resonance: &mut ResonanceRegistry,
    masking: &mut MaskingRegistry,
    view: FrameView,
    j: int,
    k: usize,
)
    requires
        call_ensures(
            Lucent::analyze_frame::<Q, E>,
            (l, mode, own, sum, relays, t, halves, quality, envelope, resonance, masking),
            view,
        ),
        old(l).wf(),
        0 <= j < 1024,
    ensures
        view.shows_own <==> mode == 0 || mode == 1,
        view.masking_map@.len() == 1024,
        mode == 0 ==> view.masking_map@[j].bits == 0xc2b4_0000 && final(l).relay_peak_tracker
            == old(l).relay_peak_tracker && final(l).masking_analyzer == old(l).masking_analyzer
            && final(resonance).map@[old(l).instance_key].relay@.len() == 0 && final(masking).map@[old(l).instance_key]@.len() == 0,
        mode != 0 ==> view.masking_map@ == final(l).masking_analyzer.masking_map@,
        mode != 0 && mode != 1 ==> final(l).peak_tracker == old(l).peak_tracker && final(resonance).map@[old(l).instance_key].own@.len() == 0,
        final(l).name == old(l).name && final(l).holds == old(l).holds && final(l).snap == old(l).snap,
{
    if mode == 0 {
        assert(view.masking_map@ == crate::lucent::silent_map());
    }
}

/// The own signal takes part in collisions only in the hybrid mode.
pub open spec fn own_part(mode: i64, levels: Seq<Level>) -> Option<Seq<Level>> {
    if mode == 1 {
        Some(levels)
    } else {
        None
    }
}

/// With masking analysed, every bin shows the collision of two of the tracks that take part: the
/// own signal only in the hybrid mode, the relays always, above the floor of the sensitivity.
pub proof fn law_masking_is_between_the_tracks_of_the_mode<
    Q: Fn(&Candidate) -> Level,
    E: Fn(Level, Level, u32) -> Level,
>(
    l: &mut Lucent,
    mode: i64,
    own: &Spectrum,
    sum: &Spectrum,
    relays: &Vec<(String, Vec<Level>)>,
    t: &SensitivityThresholds,
    halves: &Vec<usize>,
    quality: &Q,
    envelope: &E,
    resonance: &mut ResonanceRegistry,
    masking: &mut MaskingRegistry,
    view: FrameView,
    j: int,
)
    requires
        call_ensures(
            Lucent::analyze_frame::<Q, E>,
            (l, mode, own, sum, relays, t, halves, quality, envelope, resonance, masking),
            view,
        ),
        old(l).wf(),
        relays@.len() <= usize::MAX,
        mode != 0,
        0 <= j < 1024,
    ensures
        exists|tracks: Seq<int>, x: int, y: int| #[trigger]
            collides(
                own_part(mode, own.levels@),
                relays@,
                t.masking_floor_db,
                j,
                final(l).masking_analyzer.scratch@[j],
                final(l).masking_analyzer.scratch_contributors@[j]@,
                tracks,
                x,
                y,
            ),
{
    let o = own_part(mode, own.levels@);
    let a = old(l).masking_analyzer;
    let b = final(l).masking_analyzer;
    let areas = final(masking).map@[old(l).instance_key]@;
    assert(masking_step(a, b, o, relays@, *t, halves@, areas));
    let h = held_half(halves@[j]);
    assert(masked_at(a, b, o, relays@, t.masking_floor_db, h, t.persistence_min, j));
    let (tracks, x, y) = law_a_collision_is_named_after_its_two_tracks(
        a,
        b,
        o,
        relays@,
        t.masking_floor_db,
        h,
        t.persistence_min,
        j,
    );
    assert(collides(
        o,
        relays@,
        t.masking_floor_db,
        j,
        b.scratch@[j],
        b.scratch_contributors@[j]@,
        tracks,
        x,
        y,
    ));
}

/// The areas that are published are the loudest of the map above the floor, at most three, each
/// with its own names, by falling level.
pub proof fn law_published_areas_are_the_loudest<
    Q: Fn(&Candidate) -> Level,
    E: Fn(Level, Level, u32) -> Level,
>(
    l: &mut Lucent,
    mode: i64,
    own: &Spectrum,
    sum: &Spectrum,
    relays: &Vec<(String, Vec<Level>)>,
    t: &SensitivityThresholds,
    halves: &Vec<usize>,
    quality: &Q,
    envelope: &E,
    resonance: &mut ResonanceRegistry,
    masking: &mut MaskingRegistry,
    view: FrameView,
    i: int,
)
    requires
        call_ensures(
            Lucent::analyze_frame::<Q, E>,
            (l, mode, own, sum, relays, t, halves, quality, envelope, resonance, masking),
            view,
        ),
        old(l).wf(),
        mode != 0,
        0 <= i < final(masking).map@[old(l).instance_key]@.len(),
    ensures
        ({
            let areas = final(masking).map@[old(l).instance_key]@;
            let map = final(l).masking_analyzer.masking_map@;
            &&& areas.len() <= 3
            &&& areas[i].0 < 1024
            &&& areas[i].1 == map[areas[i].0 as int]
            &&& areas[i].1.above(t.masking_floor_db)
            &&& areas[i].2@ == final(l).masking_analyzer.masking_contributors@[areas[i].0 as int]@
            &&& i > 0 ==> areas[i - 1].1.at_least(areas[i].1)
        }),
{
    let b = final(l).masking_analyzer;
    let areas = final(masking).map@[old(l).instance_key]@;
    let map = b.masking_map@;
    let floor = t.masking_floor_db;
    assert(map.len() == 1024);
    assert(loudest_areas(b, floor, areas));
    let order = choose|order: Seq<usize>|
        #![trigger ranking(peak_levels(map, floor), order)]
        ranking(peak_levels(map, floor), order) && peak_values(areas) == picked(
            bins_above(map, floor, map.len()),
            order,
            3,
        );
    law_top_bins_are_the_loudest(map, floor, order, 3, 0);
    let v = peak_values(areas);
    assert(v.len() == areas.len());
    assert(v[i] == (areas[i].0, areas[i].1));
    if i > 0 {
        assert(v[i - 1] == (areas[i - 1].0, areas[i - 1].1));
    }
}

/// A frame counts for the average above -80 dB.
pub proof fn law_faint_frames_do_not_count(energy: Level, r: bool)
    requires
        call_ensures(counts_frame, (energy,), r),
    ensures
        r <==> energy.above(Level { bits: 0xc2a0_0000 }),
{
}

/// What is shown of the own signal is the frame itself, and the average moves only with frames
/// that count, bin by bin; where the own signal is not shown, both are silent.
pub proof fn law_the_own_signal_is_shown_or_silent<M: Fn(Level, Level) -> Level>(
    s: &mut ShownSpectra,
    shows: bool,
    frame: &Vec<Level>,
    counts: bool,
    mix: &M,
    u: (),
    j: int,
)
    requires
        old(s).wf(),
        frame@.len() == 1024,
        call_ensures(ShownSpectra::show_frame::<M>, (s, shows, frame, counts, mix), u),
        0 <= j < 1024,
    ensures
        shows ==> final(s).bins@[j] == frame@[j],
        shows && !counts ==> final(s).average@[j] == old(s).average@[j],
        shows && counts ==> call_ensures(*mix, (old(s).average@[j], frame@[j]), final(s).average@[j]),
        !shows ==> final(s).bins@[j].bits == 0xc2b4_0000 && final(s).average@[j].bits == 0xc2b4_0000,
{
    if shows && counts {
        assert(crate::relay_state::blended(*mix, old(s).average@, frame@, final(s).average@));
    }
    if !shows {
        assert(final(s).bins@ == crate::lucent::silent_map());
        assert(final(s).average@ == crate::lucent::silent_map());
    }
}

/// The correlation is one where either channel is silent, and never leaves the range from -1 to 1.
pub proof fn law_a_silent_channel_is_in_phase<C: Fn() -> Level>(
    left: Level,
    right: Level,
    ratio: C,
    r: Level,
)
    requires
        call_ensures(block_correlation::<C>, (left, right, ratio), r),
    ensures
        !left.above(Level { bits: 0x3089_705f }) || !right.above(Level { bits: 0x3089_705f })
            ==> r.bits == 0x3f80_0000,
        left.above(Level { bits: 0x3089_705f }) && right.above(Level { bits: 0x3089_705f })
            ==> exists|q: Level| #[trigger]
            call_ensures(ratio, (), q) && (q.at_least(Level { bits: 0xbf80_0000 }) && (Level {
                bits: 0x3f80_0000,
            }).at_least(q) ==> r == q) && (q.above(Level { bits: 0x3f80_0000 }) ==> r.bits
                == 0x3f80_0000) && ((Level { bits: 0xbf80_0000 }).above(q) ==> r.bits
                == 0xbf80_0000),
{
}

/// The spectrum of several tracks is in every bin the level of their summed powers, with -90 dB for
/// a track that does not reach the bin; it is -90 dB where that is too faint and where there are no
/// tracks.
pub proof fn law_tracks_add_up_bin_by_bin<P: Fn(&Vec<Level>) -> Level, D: Fn(Level) -> Level>(
    spectra: &Vec<Vec<Level>>,
    power: P,
    to_db: D,
    r: Vec<Level>,
    j: int,
)
    requires
        call_ensures(power_sum_spectrum::<P, D>, (spectra, power, to_db), r),
        0 <= j < 1024,
    ensures
        r@.len() == 1024,
        spectra@.len() == 0 ==> r@[j].bits == 0xc2b4_0000,
        spectra@.len() > 0 ==> exists|levels: Vec<Level>, sum: Level|
            {
                &&& #[trigger] call_ensures(power, (&levels,), sum)
                &&& levels@.len() == spectra@.len()
                &&& forall|i: int|
                    0 <= i < spectra@.len() ==> #[trigger] levels@[i] == (if j < spectra@[i]@.len() {
                        spectra@[i]@[j]
                    } else {
                        Level { bits: 0xc2b4_0000 }
                    })
                &&& (Level { bits: 0x3089_705f }).above(sum) ==> r@[j].bits == 0xc2b4_0000
                &&& !(Level { bits: 0x3089_705f }).above(sum) ==> call_ensures(to_db, (sum,), r@[j])
            },
{
    if spectra@.len() > 0 {
        assert(crate::power_sum::summed_at(spectra@, j, power, to_db, r@[j]));
        let (levels, sum) = choose|levels: Vec<Level>, sum: Level|
            {
                &&& levels@ == crate::power_sum::levels_at(spectra@, j)
                &&& #[trigger] call_ensures(power, (&levels,), sum)
                &&& if (Level { bits: crate::aurum::FAINT_BITS }).above(sum) {
                    r@[j] == (Level { bits: crate::level::SILENCE_BITS })
                } else {
                    call_ensures(to_db, (sum,), r@[j])
                }
            };
        assert(call_ensures(power, (&levels,), sum));
    }
}

/// The mode button goes from hybrid to standalone, to relay and back, and shows where it stands.
pub proof fn law_the_mode_button_goes_round(mode: i64, next: i64, label: String, name: String)
    requires
        call_ensures(next_mode, (mode,), next),
        call_ensures(mode_label, (mode,), label),
        call_ensures(mode_name, (mode,), name),
    ensures
        mode == 0 ==> next == 2 && label@ == "STANDALONE"@ && name@ == "standalone"@,
        mode == 1 ==> next == 0 && label@ == "HYBRID"@ && name@ == "hybrid"@,
        mode == 2 ==> next == 1 && label@ == "RELAY"@ && name@ == "relay"@,
{
}

/// What an instance publishes is what it reads, until it publishes again or is removed; what other
/// instances read stays the same.
pub proof fn law_an_instance_reads_what_it_published(
    a: &mut ResonanceRegistry,
    key: usize,
    lists: ResonanceLists,
    u: (),
    b: &ResonanceRegistry,
    r: ResonanceLists,
    other: usize,
    before: &ResonanceRegistry,
    was: ResonanceLists,
    now: ResonanceLists,
    i: int,
)
    requires
        call_ensures(publish_resonance, (a, key, lists), u),
        b.map@ == final(a).map@,
        call_ensures(read_resonance, (b, key), r),
        other != key,
        before.map@ == old(a).map@,
        call_ensures(read_resonance, (before, other), was),
        call_ensures(read_resonance, (b, other), now),
        0 <= i < lists.relay@.len(),
    ensures
        r.own@ == lists.own@,
        r.relay@.len() == lists.relay@.len(),
        r.relay@[i].0 == lists.relay@[i].0,
        r.relay@[i].1 == lists.relay@[i].1,
        texts(r.relay@[i].2@) == texts(lists.relay@[i].2@),
        now.own@ == was.own@,
        named_peaks(now.relay@) == named_peaks(was.relay@),
{
    assert(b.lists_of(key) == lists@);
    assert(r@ == lists@);
    assert(named_peaks(r.relay@) == named_peaks(lists.relay@));
    assert(named_peaks(r.relay@).len() == r.relay@.len());
    assert(named_peaks(lists.relay@).len() == lists.relay@.len());
    assert(named_peaks(r.relay@)[i] == (r.relay@[i].0, r.relay@[i].1, texts(r.relay@[i].2@)));
    assert(named_peaks(lists.relay@)[i] == (
        lists.relay@[i].0,
        lists.relay@[i].1,
        texts(lists.relay@[i].2@),
    ));
    assert(b.lists_of(other) == before.lists_of(other));
    assert(now@ == was@);
}

/// The same of masking areas.
pub proof fn law_an_instance_reads_the_areas_it_published(
    a: &mut MaskingRegistry,
    key: usize,
    peaks: Vec<NamedPeak>,
    u: (),
    b: &MaskingRegistry,
    r: Vec<NamedPeak>,
    i: int,
)
    requires
        call_ensures(publish_masking, (a, key, peaks), u),
        b.map@ == final(a).map@,
        call_ensures(read_masking, (b, key), r),
        0 <= i < peaks@.len(),
    ensures
        r@.len() == peaks@.len(),
        r@[i].0 == peaks@[i].0,
        r@[i].1 == peaks@[i].1,
        texts(r@[i].2@) == texts(peaks@[i].2@),
{
    assert(b.peaks_of(key) == named_peaks(peaks@));
    assert(named_peaks(r@).len() == r@.len());
    assert(named_peaks(peaks@).len() == peaks@.len());
    assert(named_peaks(r@)[i] == (r@[i].0, r@[i].1, texts(r@[i].2@)));
    assert(named_peaks(peaks@)[i] == (peaks@[i].0, peaks@[i].1, texts(peaks@[i].2@)));
}

/// An instance that is removed reads nothing.
pub proof fn law_a_removed_instance_reads_nothing(
    a: &mut ResonanceRegistry,
    m: &mut MaskingRegistry,
    key: usize,
    u: (),
    b: &ResonanceRegistry,
    n: &MaskingRegistry,
    r: ResonanceLists,
    q: Vec<NamedPeak>,
)
    requires
        call_ensures(remove_resonance, (a, key), u),
        call_ensures(remove_masking, (m, key), u),
        b.map@ == final(a).map@,
        n.map@ == final(m).map@,
        call_ensures(read_resonance, (b, key), r),
        call_ensures(read_masking, (n, key), q),
    ensures
        r.own@.len() == 0,
        r.relay@.len() == 0,
        q@.len() == 0,
{
    assert(b.lists_of(key) == final(a).lists_of(key));
    assert(n.peaks_of(key) == final(m).peaks_of(key));
    assert(r@.0.len() == 0);
    assert(named_peaks(r.relay@).len() == r.relay@.len());
    assert(named_peaks(q@).len() == q@.len());
}

/// A slot that is held is kept; one is taken only where none is held, and the editor sees its
/// number, or -1.  Released, it is handed back.
pub proof fn law_a_slot_is_held_until_released(
    l: &mut Lucent,
    offered: Option<u8>,
    u: (),
    m: &mut Lucent,
    r: Option<u8>,
)
    requires
        call_ensures(Lucent::claim_slot, (l, offered), u),
        call_ensures(Lucent::release, (m,), r),
    ensures
        old(l).claimed_slot is Some ==> final(l).claimed_slot == old(l).claimed_slot,
        old(l).claimed_slot is None ==> final(l).claimed_slot == offered,
        final(l).claimed_slot is Some ==> final(l).shm_slot == final(l).claimed_slot->0,
        final(l).claimed_slot is None ==> final(l).shm_slot == -1,
        r == old(m).claimed_slot,
        final(m).claimed_slot is None,
        final(m).shm_slot == -1,
{
}

/// A block starts with the name as it is set, and with holds at -100 dB where that is asked for; it
/// ends with each hold at the louder of what it had and what its channel brought.
pub proof fn law_the_holds_of_a_block(
    l: &mut Lucent,
    reset: bool,
    u: (),
    m: &mut Lucent,
    left: Level,
    right: Level,
    value: Level,
)
    requires
        call_ensures(Lucent::begin_block, (l, reset), u),
        call_ensures(Lucent::end_block, (m, left, right), value),
        !left.nan() && !right.nan(),
    ensures
        final(l).cached_name@ == old(l).name@,
        reset ==> final(l).holds.value.bits == 0xc2c8_0000 && final(l).holds.left.bits == 0xc2c8_0000
            && final(l).holds.right.bits == 0xc2c8_0000,
        !reset ==> final(l).holds == old(l).holds,
        value == left || value == right,
        value.at_least(left) && value.at_least(right),
        left.above(old(m).holds.left) ==> final(m).holds.left == left,
        !left.above(old(m).holds.left) ==> final(m).holds.left == old(m).holds.left,
        right.above(old(m).holds.right) ==> final(m).holds.right == right,
        !right.above(old(m).holds.right) ==> final(m).holds.right == old(m).holds.right,
        value.above(old(m).holds.value) ==> final(m).holds.value == value,
        !value.above(old(m).holds.value) ==> final(m).holds.value == old(m).holds.value,
{
}

/// A complete phase of a capture leads to the next; the third ends it.
pub proof fn law_a_capture_of_lucent_leads_on(l: &mut Lucent, r: (SnapMode, bool))
    requires
        call_ensures(Lucent::snap_captured, (l,), r),
    ensures
        old(l).snap.phase < 3 ==> final(l).snap.phase == old(l).snap.phase + 1 && !r.1 && final(l).snap.active == old(l).snap.active,
        old(l).snap.phase >= 3 ==> final(l).snap.phase == 0 && r.1 && !final(l).snap.active,
        old(l).snap.phase == 1 ==> r.0 == SnapMode::Stereo,
        old(l).snap.phase == 2 ==> r.0 == SnapMode::Mono,
        old(l).snap.phase == 3 ==> r.0 == SnapMode::Delta,
{
}

/// Relays know an instance by the name of its slot, and without one by its own.
pub proof fn law_an_instance_is_known_by_its_slot(l: &Lucent, shown: &String, r: String)
    requires
        call_ensures(Lucent::advertised_name, (l, shown), r),
    ensures
        l.claimed_slot is Some ==> r@ == shown@,
        l.claimed_slot is None ==> r@ == l.cached_name@,
{
}

/// A saved name is the name that is loaded; nothing else changes.
pub proof fn law_a_saved_lucent_loads_its_name(
    a: &Lucent,
    bytes: Vec<u8>,
    b: &mut Lucent,
    data: &[u8],
    r: Result<(), StateLoadError>,
)
    requires
        fits(a.name@),
        call_ensures(Lucent::save_state, (a,), bytes),
        data@ == bytes@,
        call_ensures(Lucent::load_state, (b, data), r),
    ensures
        r is Ok,
        final(b).name@ == a.name@,
        final(b).holds == old(b).holds,
        final(b).claimed_slot == old(b).claimed_slot,
        final(b).instance_key == old(b).instance_key,
        final(b).cached_name == old(b).cached_name,
{
    crate::lucent::law_saved_name_loads_back(a.name@);
    assert(seq![final(b).name@][0] == seq![a.name@][0]);
}

/// The level of a nameless track at a bin: -1 is the own signal.
pub open spec fn voice_level(own: Option<Seq<Level>>, spectra: Seq<Seq<Level>>, v: int, j: int) -> Level {
    if v >= 0 {
        spectra[v][j]
    } else if j < own->0.len() {
        own->0[j]
    } else {
        nothing()
    }
}

/// Whether a nameless track is heard at a bin.
pub open spec fn voice_heard(
    own: Option<Seq<Level>>,
    spectra: Seq<Seq<Level>>,
    floor: Level,
    v: int,
    j: int,
) -> bool {
    &&& -1 <= v < spectra.len()
    &&& v == -1 ==> own is Some
    &&& v >= 0 ==> j < spectra[v].len()
    &&& voice_level(own, spectra, v, j).above(floor)
}

spec fn voices_of(
    own: Option<Seq<Level>>,
    spectra: Seq<Seq<Level>>,
    floor: Level,
    j: int,
    n: int,
    voices: Seq<int>,
    s: Seq<Source>,
) -> bool {
    &&& s.len() == voices.len()
    &&& forall|a: int|
        0 <= a < voices.len() ==> voice_heard(own, spectra, floor, #[trigger] voices[a], j)
            && voices[a] < n && s[a].0 == voice_level(own, spectra, voices[a], j)
    &&& forall|a: int, b: int|
        0 <= a < b < voices.len() ==> (#[trigger] voices[a]) < (#[trigger] voices[b])
    &&& forall|v: int| #[trigger]
        voice_heard(own, spectra, floor, v, j) && v < n ==> voices.contains(v)
}

proof fn lemma_voices(
    own: Option<Seq<Level>>,
    spectra: Seq<Seq<Level>>,
    floor: Level,
    j: int,
    n: nat,
) -> (voices: Seq<int>)
    requires
        n <= spectra.len() <= usize::MAX,
    ensures
        voices_of(
            own,
            spectra,
            floor,
            j,
            n as int,
            voices,
            own_source(own, floor, j) + relay_sources(spectra, floor, j, n),
        ),
    decreases n,
{
    let first = own_source(own, floor, j);
    if n == 0 {
        assert(first + relay_sources(spectra, floor, j, 0) =~= first);
        let voices: Seq<int> = if first.len() > 0 {
            seq![-1]
        } else {
            Seq::empty()
        };
        assert forall|v: int| #[trigger]
            voice_heard(own, spectra, floor, v, j) && v < 0 implies voices.contains(v) by {
            assert(voices[0] == -1);
        }
        voices
    } else {
        let before = lemma_voices(own, spectra, floor, j, (n - 1) as nat);
        let i = n - 1;
        let was = first + relay_sources(spectra, floor, j, (n - 1) as nat);
        let now = first + relay_sources(spectra, floor, j, n);
        if voice_heard(own, spectra, floor, i, j) {
            assert(now =~= was.push((spectra[i][j], Some(i as usize))));
            let voices = before.push(i);
            assert forall|v: int| #[trigger]
                voice_heard(own, spectra, floor, v, j) && v < n implies voices.contains(v) by {
                if v == i {
                    assert(voices.last() == v);
                } else {
                    let w = choose|w: int| 0 <= w < before.len() && before[w] == v;
                    assert(voices[w] == v);
                }
            }
            voices
        } else {
            assert(now =~= was);
            before
        }
    }
}

/// Whether a level is that of the quieter of two nameless tracks, or -90 dB.
pub open spec fn pair_of_voices(
    own: Option<Seq<Level>>,
    spectra: Seq<Seq<Level>>,
    floor: Level,
    j: int,
    level: Level,
) -> bool {
    level == nothing() || exists|p: int, q: int|
        p < q && #[trigger] voice_heard(own, spectra, floor, p, j) && #[trigger] voice_heard(
            own,
            spectra,
            floor,
            q,
            j,
        ) && quieter(voice_level(own, spectra, p, j), voice_level(own, spectra, q, j), level)
}

/// In the simple analysis two tracks above -70 dB collide at the level of the quieter of the
/// loudest pair, the own signal among up to sixteen relays.
pub proof fn law_simple_collisions_are_of_the_loudest_pair(
    a: &mut crate::lucent_classic::MaskingAnalyzer,
    own: Option<&Vec<Level>>,
    relays: &Vec<Vec<Level>>,
    u: (),
    j: int,
    x: int,
    y: int,
    m: Level,
)
    requires
        call_ensures(crate::lucent_classic::MaskingAnalyzer::compute_masking, (a, own, relays), u),
        relays@.len() <= 16,
        0 <= j < old(a).masking_map@.len(),
    ensures
        pair_of_voices(
            own_view(own),
            bare_spectra(relays@),
            Level { bits: 0xc28c_0000 },
            j,
            final(a).scratch@[j],
        ),
        x < y && voice_heard(own_view(own), bare_spectra(relays@), Level { bits: 0xc28c_0000 }, x, j)
            && voice_heard(own_view(own), bare_spectra(relays@), Level { bits: 0xc28c_0000 }, y, j)
            && quieter(
            voice_level(own_view(own), bare_spectra(relays@), x, j),
            voice_level(own_view(own), bare_spectra(relays@), y, j),
            m,
        ) ==> !m.above(final(a).scratch@[j]),
{
    let o = own_view(own);
    let spectra = bare_spectra(relays@);
    let floor = Level { bits: 0xc28c_0000 };
    let voices = lemma_voices(o, spectra, floor, j, spectra.len());
    let all = own_source(o, floor, j) + relay_sources(spectra, floor, j, spectra.len());
    lemma_few(voices, spectra.len() as int);
    let s = sources_at(o, spectra, floor, j);
    assert(s == compared(all));
    assert(s == all);
    assert(final(a).scratch@[j] == crate::lucent_classic::collision_at(o, spectra, j));
    law_loudest_pair_is_loudest(s);
    match loudest_pair(s) {
        Some(p) => {
            assert(voice_heard(o, spectra, floor, voices[p.0], j));
            assert(voice_heard(o, spectra, floor, voices[p.1], j));
            assert(voices[p.0] < voices[p.1]);
            assert(s[p.0].0 == voice_level(o, spectra, voices[p.0], j));
            assert(s[p.1].0 == voice_level(o, spectra, voices[p.1], j));
        },
        None => {},
    }
    if x < y && voice_heard(o, spectra, floor, x, j) && voice_heard(o, spectra, floor, y, j) {
        let c = choose|c: int| 0 <= c < voices.len() && voices[c] == x;
        let d = choose|d: int| 0 <= d < voices.len() && voices[d] == y;
        if d <= c {
            if d < c {
                assert(voices[d] < voices[c]);
            }
        }
        assert(c < d);
        assert(!collision(s, (c, d)).above(found_level(s, loudest_pair(s))));
        assert(voice_heard(o, spectra, floor, voices[c], j));
        assert(voice_heard(o, spectra, floor, voices[d], j));
        assert(s[c].0 == voice_level(o, spectra, x, j));
        assert(s[d].0 == voice_level(o, spectra, y, j));
        if quieter(voice_level(o, spectra, x, j), voice_level(o, spectra, y, j), m) {
            assert(m.rank() == collision(s, (c, d)).rank() && !m.nan());
        }
    }
}

proof fn lemma_few(voices: Seq<int>, n: int)
    requires
        n <= 16,
        forall|a: int, b: int|
            0 <= a < b < voices.len() ==> (#[trigger] voices[a]) < (#[trigger] voices[b]),
        forall|a: int| 0 <= a < voices.len() ==> -1 <= #[trigger] voices[a] < n,
    ensures
        voices.len() <= 17,
{
    if voices.len() > 17 {
        lemma_climbs(voices, 17);
        assert(voices[17] >= 16);
    }
}

proof fn lemma_climbs(voices: Seq<int>, k: int)
    requires
        0 <= k < voices.len(),
        forall|a: int, b: int|
            0 <= a < b < voices.len() ==> (#[trigger] voices[a]) < (#[trigger] voices[b]),
        forall|a: int| 0 <= a < voices.len() ==> -1 <= #[trigger] voices[a],
    ensures
        voices[k] >= k - 1,
    decreases k,
{
    if k > 0 {
        lemma_climbs(voices, k - 1);
        assert(voices[k - 1] < voices[k]);
    }
}

/// In the simple analysis a collision shows two bins to either side, the loudest first.
pub proof fn law_simple_collisions_spread_two_bins(
    a: &mut crate::lucent_classic::MaskingAnalyzer,
    own: Option<&Vec<Level>>,
    relays: &Vec<Vec<Level>>,
    u: (),
    j: int,
    i: int,
)
    requires
        old(a).wf(),
        call_ensures(crate::lucent_classic::MaskingAnalyzer::compute_masking, (a, own, relays), u),
        0 <= j < old(a).masking_map@.len(),
        0 <= i < old(a).masking_map@.len(),
        -2 <= i - j <= 2,
    ensures
        !final(a).scratch@[i].above(final(a).masking_map@[j]),
        final(a).masking_map@[j] == nothing() || exists|k: int|
            0 <= k < final(a).scratch@.len() && -2 <= k - j <= 2 && final(a).masking_map@[j]
                == #[trigger] final(a).scratch@[k],
{
    let s = final(a).scratch@;
    assert(s.len() == old(a).masking_map@.len());
    let lo = window_lo(j, 2);
    let hi = window_hi(j, 2, s.len() as int);
    law_spread_is_the_loudest_nearby(s, lo, hi);
    assert(spread_from(s, j, 2) == loudest_in(s, lo, hi));
    assert(final(a).masking_map@[j] == crate::masking::spread_level(s, j, 2));
}

proof fn lemma_prominent(s: Seq<Level>, p: Seq<Level>, n: int)
    requires
        n < s.len() <= usize::MAX,
    ensures
        ({
            let r = prominent(s, p, n);
            &&& forall|i: int|
                0 <= i < r.len() ==> {
                    let k = (#[trigger] r[i]).0 as int;
                    0 < k < n && s[k].above(s[k - 1]) && s[k].above(s[k + 1]) && p[k].above(
                        Level { bits: 0x40c0_0000 },
                    ) && r[i].1 == p[k]
                }
            &&& forall|k: int|
                0 < k < n && s[k].above(s[k - 1]) && s[k].above(s[k + 1]) && (
                #[trigger] p[k]).above(Level { bits: 0x40c0_0000 }) ==> r.contains(
                    (k as usize, p[k]),
                )
        }),
    decreases n,
{
    if n > 1 {
        lemma_prominent(s, p, n - 1);
        let before = prominent(s, p, n - 1);
        let r = prominent(s, p, n);
        assert forall|i: int| 0 <= i < r.len() implies {
            let k = (#[trigger] r[i]).0 as int;
            0 < k < n && s[k].above(s[k - 1]) && s[k].above(s[k + 1]) && p[k].above(
                Level { bits: 0x40c0_0000 },
            ) && r[i].1 == p[k]
        } by {
            if i < before.len() {
                assert(r[i] == before[i]);
            }
        }
        assert forall|k: int|
            0 < k < n && s[k].above(s[k - 1]) && s[k].above(s[k + 1]) && (#[trigger] p[k]).above(
                Level { bits: 0x40c0_0000 },
            ) implies r.contains((k as usize, p[k])) by {
            let x = (k as usize, p[k]);
            if k == n - 1 {
                assert(r.last() == x);
            } else {
                let w = choose|w: int| 0 <= w < before.len() && before[w] == x;
                assert(r[w] == x);
            }
        }
    }
}

/// In the simple analysis the peaks are the bins louder than both their neighbours that stand out
/// by more than 6, and all of them.
pub proof fn law_simple_peaks_stand_out(
    s: &Vec<Level>,
    p: &Vec<Level>,
    r: Vec<(usize, Level)>,
    i: int,
    k: int,
)
    requires
        s@.len() <= usize::MAX,
        call_ensures(crate::lucent_classic::find_peaks, (s, p), r),
    ensures
        0 <= i < r@.len() ==> {
            let b = r@[i].0 as int;
            &&& 0 < b < s@.len() - 1
            &&& s@[b].above(s@[b - 1]) && s@[b].above(s@[b + 1])
            &&& p@[b].above(Level { bits: 0x40c0_0000 })
            &&& r@[i].1 == p@[b]
        },
        0 < k < s@.len() - 1 && s@[k].above(s@[k - 1]) && s@[k].above(s@[k + 1]) && p@[k].above(
            Level { bits: 0x40c0_0000 },
        ) ==> r@.contains((k as usize, p@[k])),
{
    lemma_prominent(s@, p@, s@.len() - 1);
}

/// In the simple analysis a resonance scores above 2 and has lasted more than two frames.
pub proof fn law_simple_resonances_last(
    t: &crate::resonance::PeakTracker,
    r: Vec<(usize, Level)>,
    i: int,
)
    requires
        t.wf(),
        t.persistence@.len() <= usize::MAX,
        call_ensures(crate::lucent_classic::resonance_peaks, (t,), r),
        0 <= i < r@.len(),
    ensures
        r@.len() <= 16,
        r@[i].1 == t.resonance_score@[r@[i].0 as int],
        r@[i].1.above(Level { bits: 0x4000_0000 }),
        t.persistence@[r@[i].0 as int] > 2,
{
    law_listed_resonances_last_and_score(
        *t,
        Level { bits: 0x4000_0000 },
        2,
        r@,
    );
}

/// In the simple analysis, too, each mode looks at its own signals.
pub proof fn law_each_simple_mode_analyses_its_signals<E: Fn(Level, Level, u32) -> Level>(
    a: &mut crate::lucent_classic::Analysis,
    mode: i64,
    own: &Vec<Level>,
    prominences: &Vec<Level>,
    relays: &Vec<Vec<Level>>,
    envelope: &E,
    view: crate::lucent_classic::FrameView,
    j: int,
)
    requires
        call_ensures(
            crate::lucent_classic::Analysis::analyze_frame::<E>,
            (a, mode, own, prominences, relays, envelope),
            view,
        ),
        0 <= j < 1024,
    ensures
        view.shows_own <==> mode == 0 || mode == 1,
        mode == 0 ==> view.masking_map@[j].bits == 0xc2b4_0000 && final(a).masking_analyzer == old(a).masking_analyzer,
        mode != 0 ==> view.masking_map@ == final(a).masking_analyzer.masking_map@,
        mode != 0 && mode != 1 ==> final(a).peak_tracker == old(a).peak_tracker && final(a).resonance_hub@.len() == 0,
{
}

/// The resonances of the own signal have lasted and score above the thresholds of the frame; so have
/// those of the group, which name the relays heard above -70 dB at their bins.
pub proof fn law_published_resonances_last_and_name_their_relays<
    Q: Fn(&Candidate) -> Level,
    E: Fn(Level, Level, u32) -> Level,
>(
    l: &mut Lucent,
    mode: i64,
    own: &Spectrum,
    sum: &Spectrum,
    relays: &Vec<(String, Vec<Level>)>,
    t: &SensitivityThresholds,
    halves: &Vec<usize>,
    quality: &Q,
    envelope: &E,
    resonance: &mut ResonanceRegistry,
    masking: &mut MaskingRegistry,
    view: FrameView,
    i: int,
    j: int,
)
    requires
        call_ensures(
            Lucent::analyze_frame::<Q, E>,
            (l, mode, own, sum, relays, t, halves, quality, envelope, resonance, masking),
            view,
        ),
        old(l).wf(),
    ensures
        ({
            let lists = final(resonance).map@[old(l).instance_key];
            &&& 0 <= i < lists.own@.len() ==> lists.own@[i].1
                == final(l).peak_tracker.resonance_score@[lists.own@[i].0 as int]
                && lists.own@[i].1.above(t.score_min)
                && final(l).peak_tracker.persistence@[lists.own@[i].0 as int] > t.persistence_min
            &&& 0 <= i < lists.relay@.len() ==> lists.relay@[i].1
                == final(l).relay_peak_tracker.resonance_score@[lists.relay@[i].0 as int]
                && lists.relay@[i].1.above(t.score_min)
                && final(l).relay_peak_tracker.persistence@[lists.relay@[i].0 as int]
                > t.persistence_min
            &&& 0 <= i < lists.relay@.len() && 0 <= j < lists.relay@[i].2@.len() ==> exists|k: int|
                0 <= k < relays@.len() && lists.relay@[i].2@[j]@ == (#[trigger] relays@[k]).0@
                    && lists.relay@[i].0 < relays@[k].1@.len()
                    && relays@[k].1@[lists.relay@[i].0 as int].above(Level { bits: 0xc28c_0000 })
        }),
{
    let lists = final(resonance).map@[old(l).instance_key];
    let after = *final(l);
    if mode == 0 || mode == 1 {
        law_listed_resonances_last_and_score(
            after.peak_tracker,
            t.score_min,
            t.persistence_min,
            lists.own@,
        );
    }
    if mode != 0 {
        let peaks = choose|peaks: Seq<(usize, Level)>|
            #![trigger attributed(peaks, relays@, lists.relay@)]
            followed(
                *quality,
                *envelope,
                old(l).relay_peak_tracker,
                after.relay_peak_tracker,
                *sum,
                *t,
                peaks,
            ) && attributed(peaks, relays@, lists.relay@);
        law_listed_resonances_last_and_score(
            after.relay_peak_tracker,
            t.score_min,
            t.persistence_min,
            peaks,
        );
        if 0 <= i < lists.relay@.len() {
            let bin = peaks[i].0 as int;
            assert(lists.relay@[i].0 == peaks[i].0);
            let places = law_contributors_are_the_tracks_heard(relays@, bin, relays@.len());
            if 0 <= j < lists.relay@[i].2@.len() {
                let names = texts(lists.relay@[i].2@);
                assert(names.len() == lists.relay@[i].2@.len());
                assert(names[j] == lists.relay@[i].2@[j]@);
                assert(heard_at(relays@, bin, relays@.len())[j] == relays@[places[j]].0@);
            }
        }
    }
}

/// A state that does not even tell how many texts it holds is refused by its name, and nothing
/// changes.
pub proof fn law_short_states_are_refused(
    l: &mut Lucent,
    data: &[u8],
    r: Result<(), StateLoadError>,
    m: &mut LucentRelay,
    q: Result<(), StateLoadError>,
)
    requires
        data@.len() < 4,
        call_ensures(Lucent::load_state, (l, data), r),
        call_ensures(LucentRelay::load_state, (m, data), q),
    ensures
        r is Err && r->Err_0->Malformed_0@ == "LucentState"@,
        q is Err && q->Err_0->Malformed_0@ == "RelayPersist"@,
        *final(l) == *old(l),
        *final(m) == *old(m),
{
}

} // verus!
