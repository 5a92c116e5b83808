//! What holds of the resonances that are found, whatever the spectrum.

use crate::level::Level;
use crate::rank::{picked, ranked_at, ranking};
use crate::resonance::{
    attribute_contributors, candidate_at, candidates, edge_down, edge_up, find_candidates, followed,
    fundamentals, harmonic, heard_at, hi_bound, is_harmonic, is_peak, keep_narrow, levels_of,
    lo_bound, narrow, near_multiple, overtone, overtone_of, peaks_of, prominence_after, rated_by,
    remembered, resonances, resonant_bins, stands_out, suppress_harmonics, width, window_around,
    Candidate, PeakShape, PeakTracker, SensitivityThresholds, Spectrum,
};
use crate::text::texts;
use vstd::prelude::*;

verus! {

/// Whether a bin is a narrow peak but for its Q: louder than both its neighbours, not below the
/// floor, over its surroundings by the least contrast, and not in noise.
pub open spec fn clear_peak(
    s: Seq<Level>,
    shapes: Seq<PeakShape>,
    t: SensitivityThresholds,
    k: int,
) -> bool {
    &&& 0 < k < s.len() - 1
    &&& s[k].above(s[k - 1])
    &&& s[k].above(s[k + 1])
    &&& !t.floor_db.above(s[k])
    &&& !t.contrast_min_db.above(shapes[k].contrast)
    &&& !shapes[k].flatness.above(t.flatness_max)
}

/// Whether `lo` and `hi` bound the bins around `k` that are above an edge: all between are above
/// it, and behind either bound is a bin that is not, the end of the spectrum, or the end of the
/// search 24 bins away.
pub open spec fn spans(s: Seq<Level>, edge: Level, k: int, lo: int, hi: int) -> bool {
    &&& 0 <= lo <= k <= hi < s.len()
    &&& k - lo <= 24
    &&& hi - k <= 24
    &&& forall|i: int| lo <= i <= hi && i != k ==> (#[trigger] s[i]).above(edge)
    &&& lo == 0 || k - lo == 24 || !s[lo - 1].above(edge)
    &&& hi == s.len() - 1 || hi - k == 24 || !s[hi + 1].above(edge)
}

/// Whether a candidate is the peak at a bin: with the contrast there, and as wide as the bins
/// around it stay within three decibels.
pub open spec fn peak_at(s: Seq<Level>, shapes: Seq<PeakShape>, k: int, c: Candidate) -> bool {
    &&& c.bin == k
    &&& c.contrast == shapes[k].contrast
    &&& spans(s, shapes[k].edge, k, c.lo_edge as int, c.hi_edge as int)
}

proof fn lemma_edge_down(s: Seq<Level>, edge: Level, from: int, bound: int)
    requires
        bound <= from,
    ensures
        ({
            let r = edge_down(s, edge, from, bound);
            &&& bound <= r <= from
            &&& forall|i: int| r <= i < from ==> (#[trigger] s[i]).above(edge)
            &&& r == bound || !s[r - 1].above(edge)
        }),
    decreases from - bound,
{
    if from > bound && s[from - 1].above(edge) {
        lemma_edge_down(s, edge, from - 1, bound);
    }
}

proof fn lemma_edge_up(s: Seq<Level>, edge: Level, from: int, bound: int)
    requires
        from <= bound,
    ensures
        ({
            let r = edge_up(s, edge, from, bound);
            &&& from <= r <= bound
            &&& forall|i: int| from < i <= r ==> (#[trigger] s[i]).above(edge)
            &&& r == bound || !s[r + 1].above(edge)
        }),
    decreases bound - from,
{
    if from < bound && s[from + 1].above(edge) {
        lemma_edge_up(s, edge, from + 1, bound);
    }
}

proof fn lemma_candidate_at(s: Seq<Level>, shapes: Seq<PeakShape>, k: int)
    requires
        0 <= k < s.len() <= usize::MAX,
    ensures
        peak_at(s, shapes, k, candidate_at(s, shapes, k)),
{
    lemma_edge_down(s, shapes[k].edge, k, lo_bound(k));
    lemma_edge_up(s, shapes[k].edge, k, hi_bound(k, s.len() as int));
}

/// Whether the bins of candidates rise.
pub open spec fn candidates_rise(c: Seq<Candidate>) -> bool {
    forall|i: int, j: int|
        0 <= i < j < c.len() ==> (#[trigger] c[i]).bin < (#[trigger] c[j]).bin
}

proof fn lemma_candidates(s: Seq<Level>, shapes: Seq<PeakShape>, t: SensitivityThresholds, n: int)
    requires
        n < s.len() <= usize::MAX,
    ensures
        ({
            let c = candidates(s, shapes, t, n);
            &&& candidates_rise(c)
            &&& forall|i: int|
                0 <= i < c.len() ==> {
                    let k = (#[trigger] c[i]).bin as int;
                    1 <= k < n && stands_out(s, shapes, t, k) && c[i] == candidate_at(s, shapes, k)
                }
            &&& forall|k: int|
                1 <= k < n && #[trigger] stands_out(s, shapes, t, k) ==> c.contains(
                    candidate_at(s, shapes, k),
                )
        }),
    decreases n,
{
    if n > 1 {
        lemma_candidates(s, shapes, t, n - 1);
        let before = candidates(s, shapes, t, n - 1);
        let c = candidates(s, shapes, t, n);
        assert forall|i: int| 0 <= i < c.len() implies {
            let k = (#[trigger] c[i]).bin as int;
            1 <= k < n && stands_out(s, shapes, t, k) && c[i] == candidate_at(s, shapes, k)
        } by {
            if i < before.len() {
                assert(c[i] == before[i]);
            }
        }
        assert forall|i: int, j: int| 0 <= i < j < c.len() implies (#[trigger] c[i]).bin < (
        #[trigger] c[j]).bin by {
            assert(c[i] == before[i]);
            if j < before.len() {
                assert(c[j] == before[j]);
            }
        }
        assert forall|k: int|
            1 <= k < n && #[trigger] stands_out(s, shapes, t, k) implies c.contains(
            candidate_at(s, shapes, k),
        ) by {
            if k == n - 1 {
                assert(c.last() == candidate_at(s, shapes, k));
            } else {
                let w = choose|w: int|
                    0 <= w < before.len() && before[w] == candidate_at(s, shapes, k);
                assert(c[w] == candidate_at(s, shapes, k));
            }
        }
    }
}

/// Every candidate is a clear peak: noise, faint bins and bins that barely rise over their
/// surroundings are none.  It has the contrast and the width of its bin.
pub proof fn law_candidates_are_clear_peaks(
    s: Seq<Level>,
    shapes: Seq<PeakShape>,
    t: SensitivityThresholds,
    i: int,
)
    requires
        s.len() <= usize::MAX,
        0 <= i < candidates(s, shapes, t, s.len() - 1).len(),
    ensures
        ({
            let c = candidates(s, shapes, t, s.len() - 1)[i];
            let k = c.bin as int;
            &&& 0 < k < s.len() - 1
            &&& s[k].above(s[k - 1]) && s[k].above(s[k + 1])
            &&& !t.floor_db.above(s[k])
            &&& !t.contrast_min_db.above(shapes[k].contrast)
            &&& !shapes[k].flatness.above(t.flatness_max)
            &&& peak_at(s, shapes, k, c)
        }),
{
    lemma_candidates(s, shapes, t, s.len() - 1);
    let c = candidates(s, shapes, t, s.len() - 1)[i];
    lemma_candidate_at(s, shapes, c.bin as int);
}

/// Every clear peak is a candidate, once, and the candidates come by rising bin.
pub proof fn law_every_clear_peak_is_a_candidate(
    s: Seq<Level>,
    shapes: Seq<PeakShape>,
    t: SensitivityThresholds,
    k: int,
)
    requires
        s.len() <= usize::MAX,
        0 < k < s.len() - 1,
        s[k].above(s[k - 1]),
        s[k].above(s[k + 1]),
        !t.floor_db.above(s[k]),
        !t.contrast_min_db.above(shapes[k].contrast),
        !shapes[k].flatness.above(t.flatness_max),
    ensures
        candidates_rise(candidates(s, shapes, t, s.len() - 1)),
        exists|i: int|
            0 <= i < candidates(s, shapes, t, s.len() - 1).len() && peak_at(
                s,
                shapes,
                k,
                #[trigger] candidates(s, shapes, t, s.len() - 1)[i],
            ),
{
    let c = candidates(s, shapes, t, s.len() - 1);
    lemma_candidates(s, shapes, t, s.len() - 1);
    assert(stands_out(s, shapes, t, k));
    let i = choose|i: int| 0 <= i < c.len() && c[i] == candidate_at(s, shapes, k);
    lemma_candidate_at(s, shapes, k);
    assert(peak_at(s, shapes, k, c[i]));
}

/// Whether a peak comes from the candidate at a place, which is narrow enough.
spec fn kept_from(
    c: Seq<Candidate>,
    qualities: Seq<Level>,
    min_q: Level,
    p: (usize, Level),
    j: int,
) -> bool {
    p.0 == c[j].bin && p.1 == c[j].contrast && !min_q.above(qualities[j])
}

/// Whether a peak comes from one of the first `n` candidates.
spec fn kept_below(
    c: Seq<Candidate>,
    qualities: Seq<Level>,
    min_q: Level,
    p: (usize, Level),
    n: int,
) -> bool {
    exists|j: int| 0 <= j < n && #[trigger] kept_from(c, qualities, min_q, p, j)
}

proof fn lemma_narrow(c: Seq<Candidate>, qualities: Seq<Level>, min_q: Level, n: nat)
    requires
        n <= c.len(),
        candidates_rise(c),
    ensures
        ({
            let r = narrow(c, qualities, min_q, n);
            &&& forall|i: int|
                0 <= i < r.len() ==> kept_below(
                    c,
                    qualities,
                    min_q,
                    #[trigger] r[i],
                    n as int,
                )
            &&& forall|j: int|
                0 <= j < n && !min_q.above(qualities[j]) ==> r.contains(
                    ((#[trigger] c[j]).bin, c[j].contrast),
                )
            &&& forall|i: int, j: int|
                0 <= i < j < r.len() ==> (#[trigger] r[i]).0 < (#[trigger] r[j]).0
            &&& forall|i: int, j: int|
                0 <= i < r.len() && n <= j < c.len() ==> (#[trigger] r[i]).0 < (#[trigger] c[j]).bin
        }),
    decreases n,
{
    if n > 0 {
        lemma_narrow(c, qualities, min_q, (n - 1) as nat);
        let before = narrow(c, qualities, min_q, (n - 1) as nat);
        let r = narrow(c, qualities, min_q, n);
        let x = (c[n - 1].bin, c[n - 1].contrast);
        assert forall|i: int| 0 <= i < r.len() implies kept_below(
            c,
            qualities,
            min_q,
            #[trigger] r[i],
            n as int,
        ) by {
            if i < before.len() {
                assert(r[i] == before[i]);
                let j = choose|j: int|
                    0 <= j < n - 1 && kept_from(c, qualities, min_q, before[i], j);
                assert(kept_from(c, qualities, min_q, r[i], j));
            } else {
                assert(kept_from(c, qualities, min_q, r[i], n - 1));
            }
        }
        assert forall|j: int|
            0 <= j < n && !min_q.above(qualities[j]) implies r.contains(
            ((#[trigger] c[j]).bin, c[j].contrast),
        ) by {
            if j == n - 1 {
                assert(r.last() == x);
            } else {
                let y = (c[j].bin, c[j].contrast);
                assert(before.contains(y));
                let w = choose|w: int| 0 <= w < before.len() && before[w] == y;
                assert(r[w] == y);
            }
        }
        assert forall|i: int, j: int| 0 <= i < j < r.len() implies (#[trigger] r[i]).0 < (
        #[trigger] r[j]).0 by {
            assert(r[i] == before[i]);
            if j < before.len() {
                assert(r[j] == before[j]);
            } else {
                assert(r[j] == x);
                assert(before[i].0 < c[n - 1].bin);
            }
        }
        assert forall|i: int, j: int| 0 <= i < r.len() && n <= j < c.len() implies (#[trigger] r[i]).0
            < (#[trigger] c[j]).bin by {
            if i < before.len() {
                assert(r[i] == before[i]);
            } else {
                assert(c[n - 1].bin < c[j].bin);
            }
        }
    }
}

/// Every peak that is found is clear and narrow: its bin is louder than both its neighbours, not
/// below the floor, not in noise, over its surroundings by the least contrast, and of a Q that is
/// not below the least.  Its contrast is that of the bin, and no bin is listed twice.
pub proof fn law_peaks_are_clear_and_narrow<Q: Fn(&Candidate) -> Level>(
    quality: Q,
    s: Seq<Level>,
    shapes: Seq<PeakShape>,
    t: SensitivityThresholds,
    r: Seq<(usize, Level)>,
    i: int,
)
    requires
        s.len() <= usize::MAX,
        peaks_of(quality, s, shapes, t, r),
        0 <= i < r.len(),
    ensures
        ({
            let k = r[i].0 as int;
            &&& 0 < k < s.len() - 1
            &&& s[k].above(s[k - 1]) && s[k].above(s[k + 1])
            &&& !t.floor_db.above(s[k])
            &&& !t.contrast_min_db.above(shapes[k].contrast)
            &&& !shapes[k].flatness.above(t.flatness_max)
            &&& r[i].1 == shapes[k].contrast
            &&& exists|c: Candidate, q: Level|
                peak_at(s, shapes, k, c) && #[trigger] call_ensures(quality, (&c,), q)
                    && !t.min_q.above(q)
        }),
        forall|j: int| 0 <= j < i ==> (#[trigger] r[j]).0 < r[i].0,
{
    let c = candidates(s, shapes, t, s.len() - 1);
    let qualities = choose|qualities: Seq<Level>|
        #![trigger rated_by(quality, c, qualities)]
        rated_by(quality, c, qualities) && r == narrow(c, qualities, t.min_q, c.len());
    lemma_candidates(s, shapes, t, s.len() - 1);
    lemma_narrow(c, qualities, t.min_q, c.len());
    let j = choose|j: int| 0 <= j < c.len() && kept_from(c, qualities, t.min_q, r[i], j);
    law_candidates_are_clear_peaks(s, shapes, t, j);
    assert(call_ensures(quality, (&c[j],), qualities[j]));
}

/// Every clear peak of which no Q below the least is told is found, with its contrast.
pub proof fn law_every_clear_and_narrow_peak_is_found<Q: Fn(&Candidate) -> Level>(
    quality: Q,
    s: Seq<Level>,
    shapes: Seq<PeakShape>,
    t: SensitivityThresholds,
    r: Seq<(usize, Level)>,
    k: int,
)
    requires
        s.len() <= usize::MAX,
        peaks_of(quality, s, shapes, t, r),
        0 < k < s.len() - 1,
        s[k].above(s[k - 1]),
        s[k].above(s[k + 1]),
        !t.floor_db.above(s[k]),
        !t.contrast_min_db.above(shapes[k].contrast),
        !shapes[k].flatness.above(t.flatness_max),
        forall|c: Candidate, q: Level|
            peak_at(s, shapes, k, c) && #[trigger] call_ensures(quality, (&c,), q)
                ==> !t.min_q.above(q),
    ensures
        r.contains((k as usize, shapes[k].contrast)),
{
    let c = candidates(s, shapes, t, s.len() - 1);
    let qualities = choose|qualities: Seq<Level>|
        #![trigger rated_by(quality, c, qualities)]
        rated_by(quality, c, qualities) && r == narrow(c, qualities, t.min_q, c.len());
    law_every_clear_peak_is_a_candidate(s, shapes, t, k);
    lemma_narrow(c, qualities, t.min_q, c.len());
    let j = choose|j: int| 0 <= j < c.len() && peak_at(s, shapes, k, #[trigger] c[j]);
    assert(call_ensures(quality, (&c[j],), qualities[j]));
    assert(r.contains((c[j].bin, c[j].contrast)));
}

/// Whether the bin `k` lies within two bins of a multiple of the bin `k0`, the second to the
/// eighth.
pub open spec fn near_an_overtone(k0: int, k: int) -> bool {
    ||| -2 <= 2 * k0 - k <= 2
    ||| -2 <= 3 * k0 - k <= 2
    ||| -2 <= 4 * k0 - k <= 2
    ||| -2 <= 5 * k0 - k <= 2
    ||| -2 <= 6 * k0 - k <= 2
    ||| -2 <= 7 * k0 - k <= 2
    ||| -2 <= 8 * k0 - k <= 2
}

proof fn lemma_harmonic(k0: int, k: int)
    ensures
        harmonic(k0, k) == near_an_overtone(k0, k),
{
    if near_an_overtone(k0, k) {
        assert(near_multiple(k0, k, 2) || near_multiple(k0, k, 3) || near_multiple(k0, k, 4)
            || near_multiple(k0, k, 5) || near_multiple(k0, k, 6) || near_multiple(k0, k, 7)
            || near_multiple(k0, k, 8));
    }
    if harmonic(k0, k) {
        let n = choose|n: int| 2 <= n <= 8 && #[trigger] near_multiple(k0, k, n);
        assert(n == 2 || n == 3 || n == 4 || n == 5 || n == 6 || n == 7 || n == 8);
    }
}

proof fn lemma_fundamentals(
    spectrum: Seq<Level>,
    ceilings: Seq<Level>,
    peaks: Seq<(usize, Level)>,
    n: nat,
)
    requires
        n <= peaks.len(),
    ensures
        ({
            let r = fundamentals(spectrum, ceilings, peaks, n);
            &&& forall|p: (usize, Level)| #[trigger]
                r.contains(p) ==> peaks.take(n as int).contains(p) && !overtone(
                    spectrum,
                    ceilings,
                    peaks,
                    p.0 as int,
                )
            &&& forall|p: (usize, Level)|
                #![trigger r.contains(p)]
                peaks.take(n as int).contains(p) && !overtone(
                    spectrum,
                    ceilings,
                    peaks,
                    p.0 as int,
                ) ==> r.contains(p)
        }),
    decreases n,
{
    let r = fundamentals(spectrum, ceilings, peaks, n);
    if n > 0 {
        lemma_fundamentals(spectrum, ceilings, peaks, (n - 1) as nat);
        let before = fundamentals(spectrum, ceilings, peaks, (n - 1) as nat);
        let x = peaks[n - 1];
        let some = peaks.take(n - 1);
        let all = peaks.take(n as int);
        assert(all =~= some.push(x));
        assert forall|p: (usize, Level)| #[trigger] r.contains(p) implies all.contains(p)
            && !overtone(spectrum, ceilings, peaks, p.0 as int) by {
            let w = choose|w: int| 0 <= w < r.len() && r[w] == p;
            if w < before.len() {
                assert(before[w] == p);
                assert(before.contains(p));
                let v = choose|v: int| 0 <= v < some.len() && some[v] == p;
                assert(all[v] == p);
            } else {
                assert(all[n - 1] == p);
            }
        }
        assert forall|p: (usize, Level)|
            #![trigger r.contains(p)]
            all.contains(p) && !overtone(spectrum, ceilings, peaks, p.0 as int) implies r.contains(
            p,
        ) by {
            let v = choose|v: int| 0 <= v < all.len() && all[v] == p;
            if v < n - 1 {
                assert(some[v] == p);
                assert(before.contains(p));
                let w = choose|w: int| 0 <= w < before.len() && before[w] == p;
                assert(r[w] == p);
            } else {
                assert(r.last() == p);
            }
        }
    }
}

/// A peak is left out exactly where a lower peak has it as an overtone: it lies within two bins of
/// a multiple of that peak, up to the eighth, and is not louder than an overtone of it may be.
pub proof fn law_overtones_are_left_out(
    spectrum: Seq<Level>,
    ceilings: Seq<Level>,
    peaks: Seq<(usize, Level)>,
    p: (usize, Level),
)
    ensures
        fundamentals(spectrum, ceilings, peaks, peaks.len()).contains(p) <==> peaks.contains(p)
            && forall|i: int|
            0 <= i < peaks.len() ==> {
                let k0 = (#[trigger] peaks[i]).0 as int;
                !(k0 < p.0 && ceilings[k0].at_least(spectrum[p.0 as int]) && near_an_overtone(
                    k0,
                    p.0 as int,
                ))
            },
{
    lemma_fundamentals(spectrum, ceilings, peaks, peaks.len());
    assert(peaks.take(peaks.len() as int) == peaks);
    let k = p.0 as int;
    assert forall|i: int| 0 <= i < peaks.len() implies overtone_of(
        spectrum,
        ceilings,
        (#[trigger] peaks[i]).0 as int,
        k,
    ) == (peaks[i].0 < k && ceilings[peaks[i].0 as int].at_least(spectrum[k]) && near_an_overtone(
        peaks[i].0 as int,
        k,
    )) by {
        lemma_harmonic(peaks[i].0 as int, k);
    }
    let r = fundamentals(spectrum, ceilings, peaks, peaks.len());
    if r.contains(p) {
        assert(!overtone(spectrum, ceilings, peaks, k));
    } else if peaks.contains(p) {
        assert(overtone(spectrum, ceilings, peaks, k));
    }
}

/// The peaks that are left keep their order.
pub proof fn law_what_is_left_keeps_its_order(
    spectrum: Seq<Level>,
    ceilings: Seq<Level>,
    peaks: Seq<(usize, Level)>,
    i: int,
    j: int,
)
    requires
        forall|a: int, b: int|
            0 <= a < b < peaks.len() ==> (#[trigger] peaks[a]).0 < (#[trigger] peaks[b]).0,
        0 <= i < j < fundamentals(spectrum, ceilings, peaks, peaks.len()).len(),
    ensures
        fundamentals(spectrum, ceilings, peaks, peaks.len())[i].0 < fundamentals(
            spectrum,
            ceilings,
            peaks,
            peaks.len(),
        )[j].0,
{
    lemma_left_rise(spectrum, ceilings, peaks, peaks.len());
}

proof fn lemma_left_rise(
    spectrum: Seq<Level>,
    ceilings: Seq<Level>,
    peaks: Seq<(usize, Level)>,
    n: nat,
)
    requires
        n <= peaks.len(),
        forall|a: int, b: int|
            0 <= a < b < peaks.len() ==> (#[trigger] peaks[a]).0 < (#[trigger] peaks[b]).0,
    ensures
        ({
            let r = fundamentals(spectrum, ceilings, peaks, n);
            &&& forall|i: int, j: int|
                0 <= i < j < r.len() ==> (#[trigger] r[i]).0 < (#[trigger] r[j]).0
            &&& forall|i: int, j: int|
                0 <= i < r.len() && n <= j < peaks.len() ==> (#[trigger] r[i]).0 < (
                #[trigger] peaks[j]).0
        }),
    decreases n,
{
    if n > 0 {
        lemma_left_rise(spectrum, ceilings, peaks, (n - 1) as nat);
        let before = fundamentals(spectrum, ceilings, peaks, (n - 1) as nat);
        let r = fundamentals(spectrum, ceilings, peaks, n);
        assert forall|i: int, j: int| 0 <= i < j < r.len() implies (#[trigger] r[i]).0 < (
        #[trigger] r[j]).0 by {
            assert(r[i] == before[i]);
            if j < before.len() {
                assert(r[j] == before[j]);
            } else {
                assert(r[j] == peaks[n - 1]);
            }
        }
        assert forall|i: int, j: int|
            0 <= i < r.len() && n <= j < peaks.len() implies (#[trigger] r[i]).0 < (
        #[trigger] peaks[j]).0 by {
            if i < before.len() {
                assert(r[i] == before[i]);
            } else {
                assert(r[i] == peaks[n - 1]);
            }
        }
    }
}

proof fn lemma_prominence(before: Seq<Level>, peaks: Seq<(usize, Level)>, n: nat, k: int)
    requires
        n <= peaks.len(),
        0 <= k < before.len(),
        forall|i: int| 0 <= i < peaks.len() ==> (#[trigger] peaks[i]).0 < before.len(),
        forall|a: int, b: int|
            0 <= a < b < peaks.len() ==> (#[trigger] peaks[a]).0 < (#[trigger] peaks[b]).0,
    ensures
        prominence_after(before, peaks, n).len() == before.len(),
        forall|i: int|
            0 <= i < n && (#[trigger] peaks[i]).0 == k ==> prominence_after(before, peaks, n)[k]
                == peaks[i].1,
        (forall|i: int| 0 <= i < n ==> (#[trigger] peaks[i]).0 != k) ==> prominence_after(
            before,
            peaks,
            n,
        )[k] == before[k],
    decreases n,
{
    if n > 0 {
        lemma_prominence(before, peaks, (n - 1) as nat, k);
        let last = peaks[n - 1];
        assert forall|i: int| 0 <= i < n && (#[trigger] peaks[i]).0 == k implies prominence_after(
            before,
            peaks,
            n,
        )[k] == peaks[i].1 by {
            if i < n - 1 {
                assert(peaks[i].0 < last.0);
            }
        }
    }
}

/// A frame leaves its mark bin by bin: a bin with a peak rises in persistence by one, up to 40,
/// and takes the prominence of the peak; any other falls by one, down to 0, and keeps its
/// prominence.  The score follows from the score before, that prominence and that persistence.
pub proof fn law_peaks_last_and_the_rest_fades<E: Fn(Level, Level, u32) -> Level>(
    envelope: E,
    before: PeakTracker,
    after: PeakTracker,
    peaks: Seq<(usize, Level)>,
    k: int,
)
    requires
        before.wf(),
        remembered(envelope, before, after, peaks),
        0 <= k < before.persistence@.len(),
        forall|i: int|
            0 <= i < peaks.len() ==> (#[trigger] peaks[i]).0 < before.persistence@.len(),
        forall|a: int, b: int|
            0 <= a < b < peaks.len() ==> (#[trigger] peaks[a]).0 < (#[trigger] peaks[b]).0,
    ensures
        forall|i: int|
            0 <= i < peaks.len() && (#[trigger] peaks[i]).0 == k ==> after.last_prominence@[k]
                == peaks[i].1 && after.persistence@[k] == (if before.persistence@[k] < 40 {
                before.persistence@[k] + 1
            } else {
                40
            }),
        (forall|i: int| 0 <= i < peaks.len() ==> (#[trigger] peaks[i]).0 != k)
            ==> after.last_prominence@[k] == before.last_prominence@[k] && after.persistence@[k]
            == (if before.persistence@[k] > 0 {
            before.persistence@[k] - 1
        } else {
            0
        }),
        call_ensures(
            envelope,
            (before.resonance_score@[k], after.last_prominence@[k], after.persistence@[k]),
            after.resonance_score@[k],
        ),
{
    lemma_prominence(before.last_prominence@, peaks, peaks.len(), k);
    assert(before.persistence@[k] <= 40);
    assert(after.resonance_score@[k] == after.resonance_score@[k]);
    assert(after.persistence@[k] == after.persistence@[k]);
    assert forall|i: int| 0 <= i < peaks.len() && (#[trigger] peaks[i]).0 == k implies is_peak(
        peaks,
        k,
    ) by {}
}

proof fn lemma_resonant(
    scores: Seq<Level>,
    persistence: Seq<u32>,
    score_min: Level,
    persistence_min: u32,
    n: int,
)
    requires
        n <= scores.len() <= usize::MAX,
    ensures
        ({
            let f = resonant_bins(scores, persistence, score_min, persistence_min, n);
            &&& forall|i: int|
                0 <= i < f.len() ==> {
                    let k = (#[trigger] f[i]).0 as int;
                    &&& 0 < k < n
                    &&& f[i].1 == scores[k]
                    &&& scores[k].above(score_min)
                    &&& persistence[k] > persistence_min
                }
            &&& forall|k: int|
                0 < k < n && (#[trigger] scores[k]).above(score_min) && persistence[k]
                    > persistence_min ==> f.contains((k as usize, scores[k]))
            &&& forall|i: int, j: int|
                0 <= i < j < f.len() ==> (#[trigger] f[i]).0 < (#[trigger] f[j]).0
        }),
    decreases n,
{
    if n > 1 {
        lemma_resonant(scores, persistence, score_min, persistence_min, n - 1);
        let before = resonant_bins(scores, persistence, score_min, persistence_min, n - 1);
        let f = resonant_bins(scores, persistence, score_min, persistence_min, n);
        assert forall|i: int| 0 <= i < f.len() implies {
            let k = (#[trigger] f[i]).0 as int;
            &&& 0 < k < n
            &&& f[i].1 == scores[k]
            &&& scores[k].above(score_min)
            &&& persistence[k] > persistence_min
        } by {
            if i < before.len() {
                assert(f[i] == before[i]);
            }
        }
        assert forall|k: int|
            0 < k < n && (#[trigger] scores[k]).above(score_min) && persistence[k]
                > persistence_min implies f.contains((k as usize, scores[k])) by {
            let x = (k as usize, scores[k]);
            if k == n - 1 {
                assert(f.last() == x);
            } else {
                assert(before.contains(x));
                let w = choose|w: int| 0 <= w < before.len() && before[w] == x;
                assert(f[w] == x);
            }
        }
        assert forall|i: int, j: int| 0 <= i < j < f.len() implies (#[trigger] f[i]).0 < (
        #[trigger] f[j]).0 by {
            assert(f[i] == before[i]);
            if j < before.len() {
                assert(f[j] == before[j]);
            }
        }
    }
}

/// Every resonance that is listed has lasted longer than asked for and scores more than asked for;
/// none is at the first or the last bin, and none is listed twice.  They come by falling score,
/// equal ones by rising bin, at most sixteen.
pub proof fn law_listed_resonances_last_and_score(
    tracker: PeakTracker,
    score_min: Level,
    persistence_min: u32,
    r: Seq<(usize, Level)>,
)
    requires
        tracker.wf(),
        tracker.persistence@.len() <= usize::MAX,
        resonances(tracker, score_min, persistence_min, r),
    ensures
        r.len() <= 16,
        forall|i: int|
            0 <= i < r.len() ==> {
                let k = (#[trigger] r[i]).0 as int;
                &&& 0 < k < tracker.persistence@.len() - 1
                &&& r[i].1 == tracker.resonance_score@[k]
                &&& tracker.resonance_score@[k].above(score_min)
                &&& tracker.persistence@[k] > persistence_min
            },
        forall|i: int, j: int|
            0 <= i < j < r.len() ==> (#[trigger] r[i]).1.above((#[trigger] r[j]).1) || (r[i].1.same(
                r[j].1,
            ) && r[i].0 < r[j].0),
{
    let n = tracker.persistence@.len() - 1;
    let f = resonant_bins(
        tracker.resonance_score@,
        tracker.persistence@,
        score_min,
        persistence_min,
        n,
    );
    lemma_resonant(
        tracker.resonance_score@,
        tracker.persistence@,
        score_min,
        persistence_min,
        n,
    );
    let order = choose|order: Seq<usize>|
        #![trigger ranking(levels_of(f), order)]
        ranking(levels_of(f), order) && r == picked(f, order, 16);
    assert forall|i: int| 0 <= i < r.len() implies {
        let k = (#[trigger] r[i]).0 as int;
        &&& 0 < k < tracker.persistence@.len() - 1
        &&& r[i].1 == tracker.resonance_score@[k]
        &&& tracker.resonance_score@[k].above(score_min)
        &&& tracker.persistence@[k] > persistence_min
    } by {
        assert(r[i] == f[order[i] as int]);
    }
    assert forall|i: int, j: int| 0 <= i < j < r.len() implies (#[trigger] r[i]).1.above(
        (#[trigger] r[j]).1,
    ) || (r[i].1.same(r[j].1) && r[i].0 < r[j].0) by {
        let a = order[i] as int;
        let b = order[j] as int;
        assert(r[i] == f[a] && r[j] == f[b]);
        assert(levels_of(f)[a] == f[a].1 && levels_of(f)[b] == f[b].1);
        assert(!f[a].1.nan() && !f[b].1.nan());
    }
}

/// A bin that has lasted and scores as asked for is listed, unless sixteen others are that score
/// at least as much.
pub proof fn law_no_better_resonance_is_left_out(
    tracker: PeakTracker,
    score_min: Level,
    persistence_min: u32,
    r: Seq<(usize, Level)>,
    k: int,
)
    requires
        tracker.wf(),
        tracker.persistence@.len() <= usize::MAX,
        resonances(tracker, score_min, persistence_min, r),
        0 < k < tracker.persistence@.len() - 1,
        tracker.resonance_score@[k].above(score_min),
        tracker.persistence@[k] > persistence_min,
    ensures
        r.contains((k as usize, tracker.resonance_score@[k])) || (r.len() == 16 && forall|i: int|
            0 <= i < r.len() ==> (#[trigger] r[i]).1.at_least(tracker.resonance_score@[k])),
{
    let n = tracker.persistence@.len() - 1;
    let f = resonant_bins(
        tracker.resonance_score@,
        tracker.persistence@,
        score_min,
        persistence_min,
        n,
    );
    lemma_resonant(
        tracker.resonance_score@,
        tracker.persistence@,
        score_min,
        persistence_min,
        n,
    );
    let order = choose|order: Seq<usize>|
        #![trigger ranking(levels_of(f), order)]
        ranking(levels_of(f), order) && r == picked(f, order, 16);
    let x = (k as usize, tracker.resonance_score@[k]);
    let w = choose|w: int| 0 <= w < f.len() && f[w] == x;
    assert(ranked_at(order, w));
    let p = choose|p: int| 0 <= p < order.len() && #[trigger] order[p] == w;
    if p < 16 {
        assert(r[p] == x);
    } else {
        assert forall|i: int| 0 <= i < r.len() implies (#[trigger] r[i]).1.at_least(x.1) by {
            let a = order[i] as int;
            assert(r[i] == f[a]);
            assert(levels_of(f)[a] == f[a].1 && levels_of(f)[w] == f[w].1);
            assert(order[p] == w);
            assert(!f[a].1.nan() && !f[w].1.nan());
        }
    }
}

/// Over one frame a bin gains persistence only where the spectrum has a clear peak, and takes its
/// contrast; a bin without one loses persistence.
pub proof fn law_only_clear_peaks_last<
    Q: Fn(&Candidate) -> Level,
    E: Fn(Level, Level, u32) -> Level,
>(
    quality: Q,
    envelope: E,
    before: PeakTracker,
    after: PeakTracker,
    s: Spectrum,
    t: SensitivityThresholds,
    r: Seq<(usize, Level)>,
    k: int,
)
    requires
        before.wf(),
        s.wf(),
        s.levels@.len() == before.persistence@.len(),
        s.levels@.len() <= usize::MAX,
        followed(quality, envelope, before, after, s, t, r),
        0 <= k < before.persistence@.len(),
    ensures
        ({
            let l = s.levels@;
            let shape = s.shapes@[k];
            !(0 < k < l.len() - 1 && l[k].above(l[k - 1]) && l[k].above(l[k + 1])
                && !t.floor_db.above(l[k]) && !t.contrast_min_db.above(shape.contrast)
                && !shape.flatness.above(t.flatness_max)) ==> {
                &&& after.persistence@[k] == (if before.persistence@[k] > 0 {
                    before.persistence@[k] - 1
                } else {
                    0
                })
                &&& after.last_prominence@[k] == before.last_prominence@[k]
            }
        }),
        after.persistence@[k] > before.persistence@[k] ==> after.persistence@[k]
            == before.persistence@[k] + 1 && after.last_prominence@[k] == s.shapes@[k].contrast,
{
    let found = choose|found: Seq<(usize, Level)>|
        #![trigger peaks_of(quality, s.levels@, s.shapes@, t, found)]
        {
            &&& peaks_of(quality, s.levels@, s.shapes@, t, found)
            &&& remembered(
                envelope,
                before,
                after,
                fundamentals(s.levels@, s.ceilings@, found, found.len()),
            )
        };
    let peaks = fundamentals(s.levels@, s.ceilings@, found, found.len());
    lemma_fundamentals(s.levels@, s.ceilings@, found, found.len());
    assert(found.take(found.len() as int) == found);
    assert forall|a: int, b: int| 0 <= a < b < found.len() implies (#[trigger] found[a]).0 < (
    #[trigger] found[b]).0 by {
        law_peaks_are_clear_and_narrow(quality, s.levels@, s.shapes@, t, found, b);
    }
    lemma_left_rise(s.levels@, s.ceilings@, found, found.len());
    assert forall|i: int| 0 <= i < peaks.len() implies (#[trigger] peaks[i]).0
        < before.persistence@.len() && clear_peak(s.levels@, s.shapes@, t, peaks[i].0 as int)
        && peaks[i].1 == s.shapes@[peaks[i].0 as int].contrast by {
        assert(peaks.contains(peaks[i]));
        let w = choose|w: int| 0 <= w < found.len() && found[w] == peaks[i];
        law_peaks_are_clear_and_narrow(quality, s.levels@, s.shapes@, t, found, w);
    }
    law_peaks_last_and_the_rest_fades(envelope, before, after, peaks, k);
    if exists|i: int| 0 <= i < peaks.len() && (#[trigger] peaks[i]).0 == k {
        let i = choose|i: int| 0 <= i < peaks.len() && (#[trigger] peaks[i]).0 == k;
        assert(clear_peak(s.levels@, s.shapes@, t, peaks[i].0 as int));
    }
}

/// Whether places of a list rise and are those of the relays above -70 dB at a bin.
pub open spec fn heard_places(
    relays: Seq<(String, Vec<Level>)>,
    bin: int,
    n: int,
    places: Seq<int>,
) -> bool {
    &&& forall|i: int, j: int|
        0 <= i < j < places.len() ==> (#[trigger] places[i]) < (#[trigger] places[j])
    &&& forall|i: int|
        0 <= i < places.len() ==> 0 <= #[trigger] places[i] < n && bin < relays[places[i]].1@.len()
            && relays[places[i]].1@[bin].above(Level { bits: 0xc28c_0000 })
    &&& forall|k: int|
        0 <= k < n && bin < (#[trigger] relays[k]).1@.len() && relays[k].1@[bin].above(
            Level { bits: 0xc28c_0000 },
        ) ==> places.contains(k)
}

/// The tracks named behind a bin are those above -70 dB there, each once and in their order.
pub proof fn law_contributors_are_the_tracks_heard(
    relays: Seq<(String, Vec<Level>)>,
    bin: int,
    n: nat,
) -> (places: Seq<int>)
    requires
        n <= relays.len(),
    ensures
        heard_places(relays, bin, n as int, places),
        heard_at(relays, bin, n).len() == places.len(),
        forall|j: int|
            0 <= j < places.len() ==> #[trigger] heard_at(relays, bin, n)[j]
                == relays[places[j]].0@,
    decreases n,
{
    if n == 0 {
        Seq::empty()
    } else {
        let before = law_contributors_are_the_tracks_heard(relays, bin, (n - 1) as nat);
        let x = relays[n - 1];
        if bin < x.1@.len() && x.1@[bin].above(Level { bits: 0xc28c_0000 }) {
            let places = before.push(n - 1);
            assert forall|k: int|
                0 <= k < n && bin < (#[trigger] relays[k]).1@.len() && relays[k].1@[bin].above(
                    Level { bits: 0xc28c_0000 },
                ) implies places.contains(k) by {
                if k == n - 1 {
                    assert(places.last() == k);
                } else {
                    let w = choose|w: int| 0 <= w < before.len() && before[w] == k;
                    assert(places[w] == k);
                }
            }
            places
        } else {
            before
        }
    }
}

/// What is found as a peak is clear and narrow, and whatever is clear and of a sufficient Q is
/// found.
pub proof fn law_found_peaks_are_exactly_the_clear_and_narrow<Q: Fn(&Candidate) -> Level>(
    tracker: &PeakTracker,
    spectrum: &Vec<Level>,
    shapes: &Vec<PeakShape>,
    t: &SensitivityThresholds,
    quality: &Q,
    r: Vec<(usize, Level)>,
    k: usize,
)
    requires
        spectrum@.len() <= usize::MAX,
        call_ensures(PeakTracker::find_peaks::<Q>, (tracker, spectrum, shapes, t, quality), r),
    ensures
        ({
            let s = spectrum@;
            let shape = shapes@[k as int];
            let clear = 0 < k < s.len() - 1 && s[k as int].above(s[k - 1]) && s[k as int].above(
                s[k + 1],
            ) && !t.floor_db.above(s[k as int]) && !t.contrast_min_db.above(shape.contrast)
                && !shape.flatness.above(t.flatness_max);
            &&& !clear ==> forall|i: int| 0 <= i < r@.len() ==> (#[trigger] r@[i]).0 != k
            &&& clear && (forall|c: Candidate, q: Level|
                peak_at(s, shapes@, k as int, c) && #[trigger] call_ensures(*quality, (&c,), q)
                    ==> !t.min_q.above(q)) ==> r@.contains((k, shape.contrast))
            &&& (forall|c: Candidate, q: Level|
                peak_at(s, shapes@, k as int, c) && #[trigger] call_ensures(*quality, (&c,), q)
                    ==> t.min_q.above(q)) ==> forall|i: int|
                0 <= i < r@.len() ==> (#[trigger] r@[i]).0 != k
        }),
        forall|i: int, j: int|
            0 <= i < j < r@.len() ==> (#[trigger] r@[i]).0 < (#[trigger] r@[j]).0,
        forall|i: int|
            0 <= i < r@.len() ==> (#[trigger] r@[i]).1 == shapes@[r@[i].0 as int].contrast,
{
    let s = spectrum@;
    assert forall|i: int, j: int| 0 <= i < j < r@.len() implies (#[trigger] r@[i]).0 < (
    #[trigger] r@[j]).0 by {
        law_peaks_are_clear_and_narrow(*quality, s, shapes@, *t, r@, j);
    }
    assert forall|i: int| 0 <= i < r@.len() implies (#[trigger] r@[i]).1
        == shapes@[r@[i].0 as int].contrast by {
        law_peaks_are_clear_and_narrow(*quality, s, shapes@, *t, r@, i);
    }
    if clear_peak(s, shapes@, *t, k as int) {
        if forall|c: Candidate, q: Level|
            peak_at(s, shapes@, k as int, c) && #[trigger] call_ensures(*quality, (&c,), q)
                ==> !t.min_q.above(q) {
            law_every_clear_and_narrow_peak_is_found(*quality, s, shapes@, *t, r@, k as int);
        }
    } else {
        assert forall|i: int| 0 <= i < r@.len() implies (#[trigger] r@[i]).0 != k by {
            law_peaks_are_clear_and_narrow(*quality, s, shapes@, *t, r@, i);
        }
    }
    if forall|c: Candidate, q: Level|
        peak_at(s, shapes@, k as int, c) && #[trigger] call_ensures(*quality, (&c,), q)
            ==> t.min_q.above(q) {
        assert forall|i: int| 0 <= i < r@.len() implies (#[trigger] r@[i]).0 != k by {
            law_peaks_are_clear_and_narrow(*quality, s, shapes@, *t, r@, i);
        }
    }
}

/// A candidate is a clear peak with the contrast and the width of its bin.
pub proof fn law_found_candidates_are_clear_peaks(
    spectrum: &Vec<Level>,
    shapes: &Vec<PeakShape>,
    t: &SensitivityThresholds,
    r: Vec<Candidate>,
    i: int,
)
    requires
        spectrum@.len() <= usize::MAX,
        call_ensures(find_candidates, (spectrum, shapes, t), r),
        0 <= i < r@.len(),
    ensures
        ({
            let k = r@[i].bin as int;
            let s = spectrum@;
            &&& 0 < k < s.len() - 1
            &&& s[k].above(s[k - 1]) && s[k].above(s[k + 1])
            &&& !t.floor_db.above(s[k])
            &&& !t.contrast_min_db.above(shapes@[k].contrast)
            &&& !shapes@[k].flatness.above(t.flatness_max)
            &&& peak_at(s, shapes@, k, r@[i])
        }),
{
    law_candidates_are_clear_peaks(spectrum@, shapes@, *t, i);
}

/// Narrow candidates are those whose Q is not below the least: each that is kept is one of them,
/// and each of them is kept.
pub proof fn law_broad_candidates_are_dropped(
    c: &Vec<Candidate>,
    qualities: &Vec<Level>,
    min_q: Level,
    r: Vec<(usize, Level)>,
    j: int,
)
    requires
        qualities@.len() == c@.len(),
        candidates_rise(c@),
        call_ensures(keep_narrow, (c, qualities, min_q), r),
        0 <= j < c@.len(),
    ensures
        !min_q.above(qualities@[j]) ==> r@.contains((c@[j].bin, c@[j].contrast)),
        min_q.above(qualities@[j]) ==> forall|i: int|
            0 <= i < r@.len() ==> (#[trigger] r@[i]).0 != c@[j].bin,
{
    lemma_narrow(c@, qualities@, min_q, c@.len());
    if min_q.above(qualities@[j]) {
        assert forall|i: int| 0 <= i < r@.len() implies (#[trigger] r@[i]).0 != c@[j].bin by {
            let m = choose|m: int|
                0 <= m < c@.len() && #[trigger] kept_from(c@, qualities@, min_q, r@[i], m);
            if m < j {
                assert(c@[m].bin < c@[j].bin);
            } else if j < m {
                assert(c@[j].bin < c@[m].bin);
            }
        }
    }
}

/// The peaks without overtones: a peak is dropped exactly where a lower one has it within two bins
/// of its second to eighth multiple and may be that loud there.
pub proof fn law_overtones_are_suppressed(
    spectrum: &Vec<Level>,
    ceilings: &Vec<Level>,
    peaks: &Vec<(usize, Level)>,
    r: Vec<(usize, Level)>,
    p: (usize, Level),
)
    requires
        call_ensures(suppress_harmonics, (spectrum, ceilings, peaks), r),
    ensures
        r@.contains(p) <==> peaks@.contains(p) && forall|i: int|
            0 <= i < peaks@.len() ==> {
                let k0 = (#[trigger] peaks@[i]).0 as int;
                !(k0 < p.0 && ceilings@[k0].at_least(spectrum@[p.0 as int]) && near_an_overtone(
                    k0,
                    p.0 as int,
                ))
            },
{
    law_overtones_are_left_out(spectrum@, ceilings@, peaks@, p);
}

/// Whether a bin is near an overtone.
pub proof fn law_overtones_are_multiples(k0: usize, k: usize, r: bool)
    requires
        call_ensures(is_harmonic, (k0, k), r),
    ensures
        r <==> near_an_overtone(k0 as int, k as int),
{
    lemma_harmonic(k0 as int, k as int);
}

/// What a frame lists has lasted and scores as asked for, by falling score; and a bin without a
/// clear peak in the frame loses persistence, so that neither noise nor a broad or a brief peak
/// gets there.
pub proof fn law_a_frame_lists_only_what_lasts<
    Q: Fn(&Candidate) -> Level,
    E: Fn(Level, Level, u32) -> Level,
>(
    tracker: &mut PeakTracker,
    s: &Spectrum,
    t: &SensitivityThresholds,
    quality: &Q,
    envelope: &E,
    r: Vec<(usize, Level)>,
    k: int,
)
    requires
        old(tracker).wf(),
        s.wf(),
        s.levels@.len() == old(tracker).persistence@.len(),
        s.levels@.len() <= usize::MAX,
        call_ensures(PeakTracker::track::<Q, E>, (tracker, s, t, quality, envelope), r),
        0 <= k < old(tracker).persistence@.len(),
    ensures
        r@.len() <= 16,
        forall|i: int|
            0 <= i < r@.len() ==> {
                let b = (#[trigger] r@[i]).0 as int;
                &&& 0 < b < s.levels@.len() - 1
                &&& r@[i].1 == final(tracker).resonance_score@[b]
                &&& r@[i].1.above(t.score_min)
                &&& final(tracker).persistence@[b] > t.persistence_min
            },
        forall|i: int, j: int|
            0 <= i < j < r@.len() ==> (#[trigger] r@[i]).1.at_least((#[trigger] r@[j]).1),
        ({
            let l = s.levels@;
            let shape = s.shapes@[k];
            !(0 < k < l.len() - 1 && l[k].above(l[k - 1]) && l[k].above(l[k + 1])
                && !t.floor_db.above(l[k]) && !t.contrast_min_db.above(shape.contrast)
                && !shape.flatness.above(t.flatness_max)) ==> final(tracker).persistence@[k] == (if old(tracker).persistence@[k] > 0 {
                old(tracker).persistence@[k] - 1
            } else {
                0
            })
        }),
{
    law_only_clear_peaks_last(
        *quality,
        *envelope,
        *old(tracker),
        *final(tracker),
        *s,
        *t,
        r@,
        k,
    );
    law_listed_resonances_last_and_score(*final(tracker), t.score_min, t.persistence_min, r@);
}

/// A tracker that has heard nothing lists nothing and remembers nothing.
pub proof fn law_a_new_tracker_remembers_nothing(t: PeakTracker, k: int)
    requires
        call_ensures(PeakTracker::new, (), t),
        0 <= k < 1024,
    ensures
        t.persistence@.len() == 1024,
        t.last_prominence@.len() == 1024,
        t.resonance_score@.len() == 1024,
        t.persistence@[k] == 0,
        t.last_prominence@[k].bits == 0,
        t.resonance_score@[k].bits == 0,
{
    assert(crate::resonance::unheard(t));
}

/// The window around a bin: as many bins to either side as asked for, cut off at the ends.
pub proof fn law_windows_are_cut_at_the_ends(k: usize, half: usize, n: usize, r: (usize, usize))
    requires
        k < n,
        call_ensures(window_around, (k, half, n), r),
    ensures
        k >= half ==> r.0 == k - half,
        k < half ==> r.0 == 0,
        k + half <= n - 1 ==> r.1 == k + half,
        k + half > n - 1 ==> r.1 == n - 1,
{
}

/// The width of a candidate in bins is the distance of its edges, at least one.
pub proof fn law_a_width_is_at_least_one(c: &Candidate, r: usize)
    requires
        c.lo_edge <= c.hi_edge,
        call_ensures(width, (c,), r),
    ensures
        c.lo_edge < c.hi_edge ==> r == c.hi_edge - c.lo_edge,
        c.lo_edge == c.hi_edge ==> r == 1,
{
}

/// The tracks behind a peak are the relays above -70 dB at its bin, and its bin and level stay.
pub proof fn law_every_peak_names_the_tracks_heard(
    peaks: &Vec<(usize, Level)>,
    relays: &Vec<(String, Vec<Level>)>,
    r: Vec<(usize, Level, Vec<String>)>,
    i: int,
    j: int,
)
    requires
        call_ensures(attribute_contributors, (peaks, relays), r),
        0 <= i < peaks@.len(),
        0 <= j < r@[i].2@.len(),
    ensures
        r@.len() == peaks@.len(),
        r@[i].0 == peaks@[i].0,
        r@[i].1 == peaks@[i].1,
        exists|k: int|
            0 <= k < relays@.len() && r@[i].2@[j]@ == (#[trigger] relays@[k]).0@ && peaks@[i].0
                < relays@[k].1@.len() && relays@[k].1@[peaks@[i].0 as int].above(
                Level { bits: 0xc28c_0000 },
            ),
{
    let places = law_contributors_are_the_tracks_heard(
        relays@,
        peaks@[i].0 as int,
        relays@.len(),
    );
    assert(r@[i].0 == peaks@[i].0);
    let names = texts(r@[i].2@);
    assert(names[j] == r@[i].2@[j]@);
    assert(names.len() == r@[i].2@.len());
    assert(heard_at(relays@, peaks@[i].0 as int, relays@.len())[j] == relays@[places[j]].0@);
}

} // verus!
