//! What the masking shows over a run of frames.

use crate::level::Level;
use crate::masking::{
    collision, found_level, held_half, law_loudest_pair_is_loudest,
    law_spread_is_the_loudest_nearby, loudest_in, loudest_pair, masked_at, own_source,
    relay_sources, silence, sources_at, spectra_of, spread_from, spread_level, unmasked, window_hi,
    window_lo, MaskingAnalyzer, Source, PERSIST_CAP, SPECTRUM_BINS,
};
use vstd::prelude::*;

verus! {

/// What is heard in a frame, and how it is judged.
pub struct MaskingFrame {
    pub own: Option<Seq<Level>>,
    pub relays: Seq<(String, Vec<Level>)>,
    pub floor: Level,
    pub half_windows: Seq<usize>,
    pub persistence_min: u32,
}

/// Whether one frame leads from one analyzer to the other.
pub open spec fn frame_step(before: MaskingAnalyzer, after: MaskingAnalyzer, f: MaskingFrame) -> bool {
    &&& after.wf()
    &&& after.masking_map@.len() == before.masking_map@.len()
    &&& forall|j: int|
        0 <= j < before.masking_map@.len() ==> #[trigger] masked_at(
            before,
            after,
            f.own,
            f.relays,
            f.floor,
            held_half(f.half_windows[j]),
            f.persistence_min,
            j,
        )
}

/// Whether the analyzers follow each other by the same frame, from one that has heard nothing.
pub open spec fn same_frames(states: Seq<MaskingAnalyzer>, f: MaskingFrame) -> bool {
    &&& states.len() > 0
    &&& states[0].wf()
    &&& unmasked(states[0])
    &&& forall|i: int|
        0 <= i < states.len() - 1 ==> #[trigger] frame_step(states[i], states[i + 1], f)
}

/// The level of the collision at each bin.
pub open spec fn bin_collisions(f: MaskingFrame) -> Seq<Level> {
    Seq::new(
        SPECTRUM_BINS as nat,
        |j: int|
            {
                let s = sources_at(f.own, spectra_of(f.relays), f.floor, j);
                found_level(s, loudest_pair(s))
            },
    )
}

/// The level of the collision in the critical band around a bin.
pub open spec fn band_collision(f: MaskingFrame, j: int) -> Level {
    spread_level(bin_collisions(f), j, held_half(f.half_windows[j]))
}

proof fn lemma_run(states: Seq<MaskingAnalyzer>, f: MaskingFrame, k: int, j: int)
    requires
        same_frames(states, f),
        0 <= k < states.len(),
        0 <= j < SPECTRUM_BINS,
    ensures
        states[k].wf(),
        states[k].masking_map@.len() == SPECTRUM_BINS,
        k > 0 ==> states[k].raw@[j] == band_collision(f, j),
        states[k].persistence@[j] == (if !band_collision(f, j).above(f.floor) {
            0
        } else if k < PERSIST_CAP {
            k
        } else {
            PERSIST_CAP as int
        }),
        states[k].masking_map@[j] == (if k > 0 && states[k].persistence@[j] > f.persistence_min {
            band_collision(f, j)
        } else {
            silence()
        }),
    decreases k,
{
    if k > 0 {
        lemma_run(states, f, k - 1, j);
        let before = states[k - 1];
        let after = states[k];
        assert(frame_step(before, states[k - 1 + 1], f));
        assert forall|i: int| 0 <= i < SPECTRUM_BINS implies #[trigger] after.scratch@[i]
            == bin_collisions(f)[i] by {
            assert(masked_at(
                before,
                after,
                f.own,
                f.relays,
                f.floor,
                held_half(f.half_windows[i]),
                f.persistence_min,
                i,
            ));
        }
        assert(after.scratch@ =~= bin_collisions(f));
        assert(masked_at(
            before,
            after,
            f.own,
            f.relays,
            f.floor,
            held_half(f.half_windows[j]),
            f.persistence_min,
            j,
        ));
    }
}

/// Over a run of equal frames a collision above the floor shows once it has held for more frames
/// than the threshold, and not before; what is not above the floor never shows.
pub proof fn law_a_collision_shows_once_it_has_held(
    states: Seq<MaskingAnalyzer>,
    f: MaskingFrame,
    k: int,
    j: int,
)
    requires
        same_frames(states, f),
        0 <= k < states.len(),
        0 <= j < SPECTRUM_BINS,
        f.persistence_min < PERSIST_CAP,
    ensures
        states[k].masking_map@[j] == (if k > f.persistence_min && band_collision(f, j).above(
            f.floor,
        ) {
            band_collision(f, j)
        } else {
            silence()
        }),
{
    lemma_run(states, f, k, j);
}

/// Where the own signal and one relay are flat and above the floor, every bin shows the quieter of
/// both once it has held for more frames than the threshold, and silence before.
pub proof fn law_flat_signals_collide_everywhere(
    states: Seq<MaskingAnalyzer>,
    f: MaskingFrame,
    a: Level,
    b: Level,
    k: int,
    j: int,
)
    requires
        same_frames(states, f),
        f.own == Some(Seq::new(SPECTRUM_BINS as nat, |i: int| a)),
        f.relays.len() == 1,
        f.relays[0].1@ == Seq::new(SPECTRUM_BINS as nat, |i: int| b),
        a.above(f.floor),
        b.above(f.floor),
        f.floor.at_least(silence()),
        f.persistence_min < PERSIST_CAP,
        0 <= k < states.len(),
        0 <= j < SPECTRUM_BINS,
    ensures
        states[k].masking_map@[j] == (if k > f.persistence_min {
            a.smaller(b)
        } else {
            silence()
        }),
{
    let levels = bin_collisions(f);
    assert forall|i: int| 0 <= i < SPECTRUM_BINS implies #[trigger] levels[i] == a.smaller(b) by {
        lemma_flat_bin(f, a, b, i);
    }
    let half = held_half(f.half_windows[j]);
    let lo = window_lo(j, half);
    let hi = window_hi(j, half, SPECTRUM_BINS as int);
    law_spread_is_the_loudest_nearby(levels, lo, hi);
    assert(levels[j] == a.smaller(b));
    assert(spread_from(levels, j, half) == loudest_in(levels, lo, hi));
    assert(band_collision(f, j) == a.smaller(b));
    law_a_collision_shows_once_it_has_held(states, f, k, j);
}

proof fn lemma_flat_bin(f: MaskingFrame, a: Level, b: Level, j: int)
    requires
        f.own == Some(Seq::new(SPECTRUM_BINS as nat, |i: int| a)),
        f.relays.len() == 1,
        f.relays[0].1@ == Seq::new(SPECTRUM_BINS as nat, |i: int| b),
        a.above(f.floor),
        b.above(f.floor),
        f.floor.at_least(silence()),
        0 <= j < SPECTRUM_BINS,
    ensures
        bin_collisions(f)[j] == a.smaller(b),
{
    let spectra = spectra_of(f.relays);
    assert(spectra.len() == 1 && spectra[0] == f.relays[0].1@);
    let s = sources_at(f.own, spectra, f.floor, j);
    reveal_with_fuel(relay_sources, 2);
    assert(own_source(f.own, f.floor, j) == seq![(a, None::<usize>)]);
    assert(relay_sources(spectra, f.floor, j, 1) =~= seq![(b, Some(0usize))]);
    let both: Seq<Source> = seq![(a, None::<usize>), (b, Some(0usize))];
    assert(own_source(f.own, f.floor, j) + relay_sources(spectra, f.floor, j, 1) =~= both);
    assert(s == both);
    law_loudest_pair_is_loudest(s);
    assert(collision(s, (0, 1)) == a.smaller(b));
    assert(loudest_pair(s) == Some((0int, 1int)));
}

} // verus!
