//! The sensitivity of the detectors, from 0 (strict) to 1 (sensitive).

use crate::level::Level;
use crate::resonance::{
    candidate_at, candidates, local_max, narrow, peaks_of, rated_by, stands_out, Candidate,
    PeakShape, SensitivityThresholds,
};
use vstd::prelude::*;

verus! {

/// A threshold at both ends of the sensitivity: strict first.
pub type Ends = (Level, Level);

/// The contrast that a peak must reach: 8 to 3 dB.
pub open spec fn contrast_ends() -> Ends {
    (Level { bits: 0x4100_0000 }, Level { bits: 0x4040_0000 })
}

/// How flat the surroundings of a peak may be: 0.5 to 0.85.
pub open spec fn flatness_ends() -> Ends {
    (Level { bits: 0x3f00_0000 }, Level { bits: 0x3f59_999a })
}

/// The level that a peak must reach: -65 to -85 dB.
pub open spec fn floor_ends() -> Ends {
    (Level { bits: 0xc282_0000 }, Level { bits: 0xc2aa_0000 })
}

/// The score that a resonance must exceed: 4 to 1.
pub open spec fn score_ends() -> Ends {
    (Level { bits: 0x4080_0000 }, Level { bits: 0x3f80_0000 })
}

/// The persistence that a finding must exceed: 20 to 4 frames.
pub open spec fn persistence_ends() -> Ends {
    (Level { bits: 0x41a0_0000 }, Level { bits: 0x4080_0000 })
}

/// The level that colliding sources must exceed: -55 to -85 dB.
pub open spec fn masking_ends() -> Ends {
    (Level { bits: 0xc25c_0000 }, Level { bits: 0xc2aa_0000 })
}

/// The Q that a peak must reach: 6 to 2.
pub open spec fn q_ends() -> Ends {
    (Level { bits: 0x40c0_0000 }, Level { bits: 0x4000_0000 })
}

/// A sensitivity held between 0 and 1.
pub open spec fn held_sensitivity(s: Level) -> Level {
    s.clamped(Level { bits: 0 }, Level { bits: 0x3f80_0000 })
}

/// Whether a threshold lies between its ends as the sensitivity asks; `lerp` goes from its first
/// argument to its second as its third goes from 0 to 1.
pub open spec fn between<L: Fn(Level, Level, Level) -> Level>(
    lerp: L,
    ends: Ends,
    sensitivity: Level,
    r: Level,
) -> bool {
    call_ensures(lerp, (ends.0, ends.1, held_sensitivity(sensitivity)), r)
}

/// Whether thresholds are those of a sensitivity; `whole` cuts a number to a whole one.
pub open spec fn thresholds_at<L: Fn(Level, Level, Level) -> Level, W: Fn(Level) -> u32>(
    lerp: L,
    whole: W,
    sensitivity: Level,
    t: SensitivityThresholds,
) -> bool {
    &&& between(lerp, contrast_ends(), sensitivity, t.contrast_min_db)
    &&& between(lerp, flatness_ends(), sensitivity, t.flatness_max)
    &&& between(lerp, floor_ends(), sensitivity, t.floor_db)
    &&& between(lerp, score_ends(), sensitivity, t.score_min)
    &&& between(lerp, masking_ends(), sensitivity, t.masking_floor_db)
    &&& between(lerp, q_ends(), sensitivity, t.min_q)
    &&& exists|frames: Level| #[trigger]
        between(lerp, persistence_ends(), sensitivity, frames) && call_ensures(
            whole,
            (frames,),
            t.persistence_min,
        )
}

/// The thresholds of a sensitivity.
pub fn sensitivity_thresholds<L: Fn(Level, Level, Level) -> Level, W: Fn(Level) -> u32>(
    sensitivity: Level,
    lerp: L,
    whole: W,
) -> (r: SensitivityThresholds)
    requires
        forall|a: Level, b: Level, d: Level| call_requires(lerp, (a, b, d)),
        forall|l: Level| call_requires(whole, (l,)),
    ensures
        thresholds_at(lerp, whole, sensitivity, r),
{
    let d: Level = sensitivity.clamp(Level { bits: 0 }, Level { bits: 0x3f80_0000 });
    let frames: Level = lerp(Level { bits: 0x41a0_0000 }, Level { bits: 0x4080_0000 }, d);
    proof {
        assert(between(lerp, persistence_ends(), sensitivity, frames));
    }
    SensitivityThresholds {
        contrast_min_db: lerp(Level { bits: 0x4100_0000 }, Level { bits: 0x4040_0000 }, d),
        flatness_max: lerp(Level { bits: 0x3f00_0000 }, Level { bits: 0x3f59_999a }, d),
        floor_db: lerp(Level { bits: 0xc282_0000 }, Level { bits: 0xc2aa_0000 }, d),
        score_min: lerp(Level { bits: 0x4080_0000 }, Level { bits: 0x3f80_0000 }, d),
        persistence_min: whole(frames),
        masking_floor_db: lerp(Level { bits: 0xc25c_0000 }, Level { bits: 0xc2aa_0000 }, d),
        min_q: lerp(Level { bits: 0x40c0_0000 }, Level { bits: 0x4000_0000 }, d),
    }
}

/// Whether `lerp` never turns back: the further it goes, the nearer it is to where it goes.
pub open spec fn never_turns<L: Fn(Level, Level, Level) -> Level>(lerp: L) -> bool {
    forall|a: Level, b: Level, d: Level, e: Level, x: Level, y: Level|
        e.at_least(d) && #[trigger] call_ensures(lerp, (a, b, d), x) && #[trigger] call_ensures(
            lerp,
            (a, b, e),
            y,
        ) ==> (a.at_least(b) ==> x.at_least(y)) && (b.at_least(a) ==> y.at_least(x))
}

/// Whether thresholds let through at least what others do.
pub open spec fn looser(strict: SensitivityThresholds, loose: SensitivityThresholds) -> bool {
    &&& strict.contrast_min_db.at_least(loose.contrast_min_db)
    &&& loose.flatness_max.at_least(strict.flatness_max)
    &&& strict.floor_db.at_least(loose.floor_db)
    &&& strict.score_min.at_least(loose.score_min)
    &&& strict.masking_floor_db.at_least(loose.masking_floor_db)
    &&& strict.min_q.at_least(loose.min_q)
}

/// Whether one list is what is left of the other where some of it is left out.
pub open spec fn subsequence(a: Seq<(usize, Level)>, b: Seq<(usize, Level)>) -> bool
    decreases b.len(),
{
    if a.len() == 0 {
        true
    } else if b.len() == 0 {
        false
    } else {
        (a.last() == b.last() && subsequence(a.drop_last(), b.drop_last())) || subsequence(
            a,
            b.drop_last(),
        )
    }
}

/// Whether the bins of peaks strictly rise.
pub open spec fn rising(peaks: Seq<(usize, Level)>) -> bool {
    forall|i: int, j: int|
        0 <= i < j < peaks.len() ==> (#[trigger] peaks[i]).0 < (#[trigger] peaks[j]).0
}

/// Whether every peak is louder than both its neighbours.
pub open spec fn on_tops(s: Seq<Level>, peaks: Seq<(usize, Level)>) -> bool {
    forall|i: int| 0 <= i < peaks.len() ==> local_max(s, (#[trigger] peaks[i]).0 as int)
}

/// The peaks below the bin `n`, where `q` tells the Q of a candidate.
pub open spec fn peaks_below(
    s: Seq<Level>,
    shapes: Seq<PeakShape>,
    t: SensitivityThresholds,
    q: spec_fn(Candidate) -> Level,
    n: int,
) -> Seq<(usize, Level)>
    decreases n,
{
    if n <= 1 {
        Seq::empty()
    } else {
        let before = peaks_below(s, shapes, t, q, n - 1);
        let c = candidate_at(s, shapes, n - 1);
        if stands_out(s, shapes, t, n - 1) && !t.min_q.above(q(c)) {
            before.push((c.bin, c.contrast))
        } else {
            before
        }
    }
}

proof fn lemma_narrow_agrees(
    c: Seq<Candidate>,
    d: Seq<Candidate>,
    p: Seq<Level>,
    r: Seq<Level>,
    min_q: Level,
    n: nat,
)
    requires
        n <= c.len(),
        n <= d.len(),
        n <= p.len(),
        n <= r.len(),
        forall|i: int| 0 <= i < n ==> c[i] == d[i] && p[i] == r[i],
    ensures
        narrow(c, p, min_q, n) == narrow(d, r, min_q, n),
    decreases n,
{
    if n > 0 {
        lemma_narrow_agrees(c, d, p, r, min_q, (n - 1) as nat);
        assert(c[n - 1] == d[n - 1] && p[n - 1] == r[n - 1]);
    }
}

proof fn lemma_peaks_below(
    s: Seq<Level>,
    shapes: Seq<PeakShape>,
    t: SensitivityThresholds,
    q: spec_fn(Candidate) -> Level,
    qualities: Seq<Level>,
    n: int,
)
    requires
        ({
            let c = candidates(s, shapes, t, n);
            &&& qualities.len() == c.len()
            &&& forall|i: int| 0 <= i < c.len() ==> qualities[i] == q(#[trigger] c[i])
        }),
    ensures
        narrow(candidates(s, shapes, t, n), qualities, t.min_q, candidates(s, shapes, t, n).len())
            == peaks_below(s, shapes, t, q, n),
    decreases n,
{
    let c = candidates(s, shapes, t, n);
    if n > 1 {
        let before = candidates(s, shapes, t, n - 1);
        let rest = qualities.take(before.len() as int);
        assert forall|i: int| 0 <= i < before.len() implies rest[i] == q(#[trigger] before[i]) by {
            assert(c[i] == before[i]);
        }
        lemma_peaks_below(s, shapes, t, q, rest, n - 1);
        assert forall|i: int| 0 <= i < before.len() implies c[i] == before[i] && qualities[i]
            == rest[i] by {}
        lemma_narrow_agrees(c, before, qualities, rest, t.min_q, before.len());
        if stands_out(s, shapes, t, n - 1) {
            assert(c.len() == before.len() + 1);
            assert(c[before.len() as int] == candidate_at(s, shapes, n - 1));
            assert(qualities[before.len() as int] == q(c[before.len() as int]));
        } else {
            assert(c == before);
        }
    }
}

proof fn lemma_peaks_kept(
    s: Seq<Level>,
    shapes: Seq<PeakShape>,
    strict: SensitivityThresholds,
    loose: SensitivityThresholds,
    q: spec_fn(Candidate) -> Level,
    n: int,
)
    requires
        looser(strict, loose),
    ensures
        subsequence(
            peaks_below(s, shapes, strict, q, n),
            peaks_below(s, shapes, loose, q, n),
        ),
    decreases n,
{
    if n > 1 {
        lemma_peaks_kept(s, shapes, strict, loose, q, n - 1);
        let a = peaks_below(s, shapes, strict, q, n - 1);
        let b = peaks_below(s, shapes, loose, q, n - 1);
        let c = candidate_at(s, shapes, n - 1);
        let x = (c.bin, c.contrast);
        assert(a.push(x).drop_last() =~= a);
        assert(b.push(x).drop_last() =~= b);
    }
}

proof fn lemma_peaks_rise(
    s: Seq<Level>,
    shapes: Seq<PeakShape>,
    t: SensitivityThresholds,
    q: spec_fn(Candidate) -> Level,
    n: int,
)
    requires
        n <= usize::MAX,
    ensures
        rising(peaks_below(s, shapes, t, q, n)),
        on_tops(s, peaks_below(s, shapes, t, q, n)),
        forall|i: int|
            0 <= i < peaks_below(s, shapes, t, q, n).len() ==> (#[trigger] peaks_below(
                s,
                shapes,
                t,
                q,
                n,
            )[i]).0 < n,
    decreases n,
{
    if n > 1 {
        lemma_peaks_rise(s, shapes, t, q, n - 1);
        let before = peaks_below(s, shapes, t, q, n - 1);
        let now = peaks_below(s, shapes, t, q, n);
        assert forall|i: int| 0 <= i < now.len() implies (#[trigger] now[i]).0 < n && local_max(
            s,
            now[i].0 as int,
        ) by {
            if i < before.len() {
                assert(now[i] == before[i]);
            }
        }
        assert forall|i: int, j: int| 0 <= i < j < now.len() implies (#[trigger] now[i]).0 < (
        #[trigger] now[j]).0 by {
            assert(now[i] == before[i]);
            if j < before.len() {
                assert(now[j] == before[j]);
            }
        }
    }
}

/// Thresholds of a higher sensitivity let through at least what those of a lower one do.
pub proof fn law_higher_sensitivity_is_looser<
    L: Fn(Level, Level, Level) -> Level,
    W: Fn(Level) -> u32,
>(
    lerp: L,
    whole: W,
    low: Level,
    high: Level,
    strict: SensitivityThresholds,
    loose: SensitivityThresholds,
)
    requires
        high.at_least(low),
        never_turns(lerp),
        thresholds_at(lerp, whole, low, strict),
        thresholds_at(lerp, whole, high, loose),
    ensures
        looser(strict, loose),
{
    assert(held_sensitivity(high).at_least(held_sensitivity(low)));
    assert(contrast_ends().0.at_least(contrast_ends().1));
    assert(flatness_ends().1.at_least(flatness_ends().0));
    assert(floor_ends().0.at_least(floor_ends().1));
    assert(score_ends().0.at_least(score_ends().1));
    assert(masking_ends().0.at_least(masking_ends().1));
    assert(q_ends().0.at_least(q_ends().1));
}

/// A higher sensitivity keeps every peak of a lower one, its contrast with it; at either the bins
/// rise and every peak is louder than its neighbours.
///
/// `q` is what `quality` tells of a candidate.
pub proof fn law_higher_sensitivity_keeps_every_peak<
    L: Fn(Level, Level, Level) -> Level,
    W: Fn(Level) -> u32,
    Q: Fn(&Candidate) -> Level,
>(
    lerp: L,
    whole: W,
    quality: Q,
    q: spec_fn(Candidate) -> Level,
    s: Seq<Level>,
    shapes: Seq<PeakShape>,
    low: Level,
    high: Level,
    strict: SensitivityThresholds,
    loose: SensitivityThresholds,
    few: Seq<(usize, Level)>,
    many: Seq<(usize, Level)>,
)
    requires
        high.at_least(low),
        never_turns(lerp),
        thresholds_at(lerp, whole, low, strict),
        thresholds_at(lerp, whole, high, loose),
        forall|c: Candidate, v: Level| #[trigger] call_ensures(quality, (&c,), v) ==> v == q(c),
        s.len() <= usize::MAX,
        peaks_of(quality, s, shapes, strict, few),
        peaks_of(quality, s, shapes, loose, many),
    ensures
        subsequence(few, many),
        rising(few) && rising(many),
        on_tops(s, few) && on_tops(s, many),
{
    law_higher_sensitivity_is_looser(lerp, whole, low, high, strict, loose);
    let n = s.len() - 1;
    lemma_peaks_are_those_below(quality, q, s, shapes, strict, few);
    lemma_peaks_are_those_below(quality, q, s, shapes, loose, many);
    lemma_peaks_kept(s, shapes, strict, loose, q, n);
    lemma_peaks_rise(s, shapes, strict, q, n);
    lemma_peaks_rise(s, shapes, loose, q, n);
}

proof fn lemma_peaks_are_those_below<Q: Fn(&Candidate) -> Level>(
    quality: Q,
    q: spec_fn(Candidate) -> Level,
    s: Seq<Level>,
    shapes: Seq<PeakShape>,
    t: SensitivityThresholds,
    r: Seq<(usize, Level)>,
)
    requires
        forall|c: Candidate, v: Level| #[trigger] call_ensures(quality, (&c,), v) ==> v == q(c),
        peaks_of(quality, s, shapes, t, r),
    ensures
        r == peaks_below(s, shapes, t, q, s.len() - 1),
{
    let c = candidates(s, shapes, t, s.len() - 1);
    let qualities = choose|qualities: Seq<Level>|
        #![trigger rated_by(quality, c, qualities)]
        rated_by(quality, c, qualities) && r == narrow(c, qualities, t.min_q, c.len());
    assert forall|i: int| 0 <= i < c.len() implies qualities[i] == q(#[trigger] c[i]) by {
        assert(call_ensures(quality, (&c[i],), qualities[i]));
    }
    lemma_peaks_below(s, shapes, t, q, qualities, s.len() - 1);
}

} // verus!
