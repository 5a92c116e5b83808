//! Resonances: narrow peaks of a spectrum that stay.

use crate::level::{Level, HEARD_BITS};
use crate::masking::{persist, persisted, PERSIST_CAP, SPECTRUM_BINS};
use crate::rank::{order_desc, picked, ranking};
use crate::text::texts;
use vstd::prelude::*;

verus! {

/// How far the width of a peak is searched to either side.
pub const MAX_BW_SEARCH: usize = 24;

/// How many bins to either side make the baseline of a peak.
pub const BASELINE_WINDOW: usize = 8;

/// How many bins to either side tell how flat the spectrum is around a peak.
pub const FLATNESS_WINDOW: usize = 4;

/// How many resonances are shown.
pub const MAX_RESONANCES: usize = 16;

/// What a peak must reach to count.
pub struct SensitivityThresholds {
    pub contrast_min_db: Level,
    pub flatness_max: Level,
    pub floor_db: Level,
    pub score_min: Level,
    pub persistence_min: u32,
    pub masking_floor_db: Level,
    pub min_q: Level,
}

/// What was computed around one bin.
#[derive(Clone, Copy)]
pub struct PeakShape {
    /// The level over the baseline of the bins around.
    pub contrast: Level,
    /// How noise-like the bins around are.
    pub flatness: Level,
    /// The level three decibels below the bin.
    pub edge: Level,
}

/// A peak whose width is known.
#[derive(Clone, Copy)]
pub struct Candidate {
    pub bin: usize,
    pub contrast: Level,
    pub lo_edge: usize,
    pub hi_edge: usize,
}

/// Whether a bin is louder than both its neighbours.
pub open spec fn local_max(s: Seq<Level>, k: int) -> bool {
    s[k].above(s[k - 1]) && s[k].above(s[k + 1])
}

/// Whether a bin passes every test but that of its width.
pub open spec fn stands_out(
    s: Seq<Level>,
    shapes: Seq<PeakShape>,
    t: SensitivityThresholds,
    k: int,
) -> bool {
    &&& local_max(s, k)
    &&& !t.floor_db.above(s[k])
    &&& !t.contrast_min_db.above(shapes[k].contrast)
    &&& !shapes[k].flatness.above(t.flatness_max)
}

/// The lowest bin reached from `from` through bins above `edge`, not below `bound`.
pub open spec fn edge_down(s: Seq<Level>, edge: Level, from: int, bound: int) -> int
    decreases from - bound,
{
    if from > bound && s[from - 1].above(edge) {
        edge_down(s, edge, from - 1, bound)
    } else {
        from
    }
}

/// The highest bin reached from `from` through bins above `edge`, not above `bound`.
pub open spec fn edge_up(s: Seq<Level>, edge: Level, from: int, bound: int) -> int
    decreases bound - from,
{
    if from < bound && s[from + 1].above(edge) {
        edge_up(s, edge, from + 1, bound)
    } else {
        from
    }
}

/// The lowest bin that the width of a peak is searched down to.
pub open spec fn lo_bound(k: int) -> int {
    if k < MAX_BW_SEARCH {
        0
    } else {
        k - MAX_BW_SEARCH
    }
}

/// The highest bin that the width of a peak is searched up to.
pub open spec fn hi_bound(k: int, n: int) -> int {
    if k + MAX_BW_SEARCH > n - 1 {
        n - 1
    } else {
        k + MAX_BW_SEARCH
    }
}

/// The peak at a bin with its width.
pub open spec fn candidate_at(s: Seq<Level>, shapes: Seq<PeakShape>, k: int) -> Candidate {
    Candidate {
        bin: k as usize,
        contrast: shapes[k].contrast,
        lo_edge: edge_down(s, shapes[k].edge, k, lo_bound(k)) as usize,
        hi_edge: edge_up(s, shapes[k].edge, k, hi_bound(k, s.len() as int)) as usize,
    }
}

/// The peaks below the bin `n` that stand out, but for their width.
pub open spec fn candidates(
    s: Seq<Level>,
    shapes: Seq<PeakShape>,
    t: SensitivityThresholds,
    n: int,
) -> Seq<Candidate>
    decreases n,
{
    if n <= 1 {
        Seq::empty()
    } else {
        let before = candidates(s, shapes, t, n - 1);
        if stands_out(s, shapes, t, n - 1) {
            before.push(candidate_at(s, shapes, n - 1))
        } else {
            before
        }
    }
}

/// The window of `half` bins to either side of a bin, first and last.
pub fn window_around(k: usize, half: usize, n: usize) -> (r: (usize, usize))
    requires
        k < n,
    ensures
        r.0 == (if k < half {
            0
        } else {
            k - half
        }),
        r.1 == (if k + half > n - 1 {
            n - 1
        } else {
            k + half
        }),
        r.0 <= k <= r.1 < n,
{
    let lo: usize = if k < half {
        0
    } else {
        k - half
    };
    let hi: usize = if half > n - 1 - k {
        n - 1
    } else {
        k + half
    };
    (lo, hi)
}

/// How far the width of the peak at `k` reaches.
fn find_edges(s: &Vec<Level>, edge: Level, k: usize) -> (r: (usize, usize))
    requires
        k < s.len(),
    ensures
        r.0 == edge_down(s@, edge, k as int, lo_bound(k as int)),
        r.1 == edge_up(s@, edge, k as int, hi_bound(k as int, s.len() as int)),
        r.0 <= k <= r.1 < s.len(),
{
    let bounds: (usize, usize) = window_around(k, MAX_BW_SEARCH, s.len());
    let mut lo: usize = k;
    while lo > bounds.0 && s[lo - 1].gt(edge)
        invariant
            bounds.0 <= lo <= k < s.len(),
            bounds.0 == lo_bound(k as int),
            edge_down(s@, edge, k as int, lo_bound(k as int)) == edge_down(
                s@,
                edge,
                lo as int,
                lo_bound(k as int),
            ),
        decreases lo,
    {
        lo = lo - 1;
    }
    let mut hi: usize = k;
    while hi < bounds.1 && s[hi + 1].gt(edge)
        invariant
            k <= hi <= bounds.1 < s.len(),
            bounds.1 == hi_bound(k as int, s.len() as int),
            edge_up(s@, edge, k as int, hi_bound(k as int, s.len() as int)) == edge_up(
                s@,
                edge,
                hi as int,
                hi_bound(k as int, s.len() as int),
            ),
        decreases bounds.1 - hi,
    {
        hi = hi + 1;
    }
    (lo, hi)
}

/// Whether every candidate is a bin inside its own width, all inside the spectrum.
pub open spec fn placed(c: Seq<Candidate>, n: int) -> bool {
    forall|i: int|
        0 <= i < c.len() ==> (#[trigger] c[i]).lo_edge <= c[i].bin && c[i].bin <= c[i].hi_edge
            && c[i].hi_edge < n
}

/// The peaks that stand out, but for their width.
pub fn find_candidates(
    spectrum: &Vec<Level>,
    shapes: &Vec<PeakShape>,
    t: &SensitivityThresholds,
) -> (r: Vec<Candidate>)
    requires
        shapes.len() == spectrum.len(),
    ensures
        r@ == candidates(spectrum@, shapes@, *t, spectrum.len() - 1),
        placed(r@, spectrum.len() as int),
{
    let mut r: Vec<Candidate> = Vec::new();
    let n: usize = spectrum.len();
    if n < 3 {
        proof {
            reveal_with_fuel(candidates, 2);
        }
        return r;
    }
    let mut k: usize = 1;
    while k < n - 1
        invariant
            3 <= n,
            n == spectrum.len(),
            shapes.len() == n,
            1 <= k <= n - 1,
            r@ == candidates(spectrum@, shapes@, *t, k as int),
            placed(r@, n as int),
        decreases n - k,
    {
        let center: Level = spectrum[k];
        if center.gt(spectrum[k - 1]) && center.gt(spectrum[k + 1]) && !t.floor_db.gt(center)
            && !t.contrast_min_db.gt(shapes[k].contrast) && !shapes[k].flatness.gt(t.flatness_max) {
            let edges: (usize, usize) = find_edges(spectrum, shapes[k].edge, k);
            r.push(
                Candidate {
                    bin: k,
                    contrast: shapes[k].contrast,
                    lo_edge: edges.0,
                    hi_edge: edges.1,
                },
            );
        }
        k = k + 1;
    }
    r
}

/// The width of a candidate in bins, at least one.
pub fn width(c: &Candidate) -> (r: usize)
    requires
        c.lo_edge <= c.hi_edge,
    ensures
        r == (if c.hi_edge - c.lo_edge < 1 {
            1
        } else {
            c.hi_edge - c.lo_edge
        }),
{
    if c.hi_edge - c.lo_edge < 1 {
        1
    } else {
        c.hi_edge - c.lo_edge
    }
}

/// The first `n` candidates that are narrow enough, with their contrast.
pub open spec fn narrow(
    c: Seq<Candidate>,
    qualities: Seq<Level>,
    min_q: Level,
    n: nat,
) -> Seq<(usize, Level)>
    decreases n,
{
    if n == 0 {
        Seq::empty()
    } else {
        let i = (n - 1) as nat;
        let before = narrow(c, qualities, min_q, i);
        if min_q.above(qualities[i as int]) {
            before
        } else {
            before.push((c[i as int].bin, c[i as int].contrast))
        }
    }
}

/// The candidates that are narrow enough, with their contrast.
pub fn keep_narrow(c: &Vec<Candidate>, qualities: &Vec<Level>, min_q: Level) -> (r: Vec<
    (usize, Level),
>)
    requires
        qualities.len() == c.len(),
    ensures
        r@ == narrow(c@, qualities@, min_q, c@.len()),
{
    let mut r: Vec<(usize, Level)> = Vec::new();
    for i in 0..c.len()
        invariant
            qualities.len() == c.len(),
            r@ == narrow(c@, qualities@, min_q, i as nat),
    {
        if !min_q.gt(qualities[i]) {
            r.push((c[i].bin, c[i].contrast));
        }
    }
    r
}

/// Whether `qualities` is what `quality` gives for the candidates.
pub open spec fn rated_by<Q: Fn(&Candidate) -> Level>(
    quality: Q,
    c: Seq<Candidate>,
    qualities: Seq<Level>,
) -> bool {
    &&& qualities.len() == c.len()
    &&& forall|i: int|
        0 <= i < c.len() ==> call_ensures(quality, (&#[trigger] c[i],), qualities[i])
}

/// Whether `r` holds the peaks of a spectrum: the candidates that are narrow enough.
pub open spec fn peaks_of<Q: Fn(&Candidate) -> Level>(
    quality: Q,
    spectrum: Seq<Level>,
    shapes: Seq<PeakShape>,
    t: SensitivityThresholds,
    r: Seq<(usize, Level)>,
) -> bool {
    let c = candidates(spectrum, shapes, t, spectrum.len() - 1);
    exists|qualities: Seq<Level>|
        #![trigger rated_by(quality, c, qualities)]
        rated_by(quality, c, qualities) && r == narrow(c, qualities, t.min_q, c.len())
}

proof fn lemma_narrow_inside(
    c: Seq<Candidate>,
    qualities: Seq<Level>,
    min_q: Level,
    n: nat,
    bins: int,
)
    requires
        n <= c.len(),
        placed(c, bins),
    ensures
        inside(narrow(c, qualities, min_q, n), bins),
    decreases n,
{
    if n > 0 {
        lemma_narrow_inside(c, qualities, min_q, (n - 1) as nat, bins);
        let before = narrow(c, qualities, min_q, (n - 1) as nat);
        let now = narrow(c, qualities, min_q, n);
        assert(c[n - 1].bin < bins);
        assert forall|i: int| 0 <= i < now.len() implies (#[trigger] now[i]).0 < bins by {
            if i < before.len() {
                assert(now[i] == before[i]);
            }
        }
    }
}

/// A spectrum with what was computed around each bin.
pub struct Spectrum {
    pub levels: Vec<Level>,
    pub shapes: Vec<PeakShape>,
    /// How loud an overtone of each bin may be.
    pub ceilings: Vec<Level>,
}

impl Spectrum {
    /// Every list covers all bins.
    pub open spec fn wf(&self) -> bool {
        self.shapes@.len() == self.levels@.len() && self.ceilings@.len() == self.levels@.len()
    }
}

/// What a tracker remembers once it has taken in the peaks of a frame.
pub open spec fn remembered<E: Fn(Level, Level, u32) -> Level>(
    envelope: E,
    before: PeakTracker,
    after: PeakTracker,
    peaks: Seq<(usize, Level)>,
) -> bool {
    &&& after.last_prominence@ == prominence_after(before.last_prominence@, peaks, peaks.len())
    &&& forall|k: int|
        #![trigger after.persistence@[k]]
        0 <= k < before.persistence@.len() ==> after.persistence@[k] == persisted(
            before.persistence@[k],
            is_peak(peaks, k),
        )
    &&& forall|k: int|
        #![trigger after.resonance_score@[k]]
        0 <= k < before.persistence@.len() ==> call_ensures(
            envelope,
            (before.resonance_score@[k], after.last_prominence@[k], after.persistence@[k]),
            after.resonance_score@[k],
        )
}

/// Whether `r` holds the resonances over the thresholds by falling score, at most sixteen.
pub open spec fn resonances(
    tracker: PeakTracker,
    score_min: Level,
    persistence_min: u32,
    r: Seq<(usize, Level)>,
) -> bool {
    ranked(
        resonant_bins(
            tracker.resonance_score@,
            tracker.persistence@,
            score_min,
            persistence_min,
            tracker.persistence@.len() - 1,
        ),
        MAX_RESONANCES as nat,
        r,
    )
}

/// What one frame does to a tracker: its peaks without the overtones are remembered, and `r`
/// holds the resonances there are with them.
pub open spec fn followed<Q: Fn(&Candidate) -> Level, E: Fn(Level, Level, u32) -> Level>(
    quality: Q,
    envelope: E,
    before: PeakTracker,
    after: PeakTracker,
    s: Spectrum,
    t: SensitivityThresholds,
    r: Seq<(usize, Level)>,
) -> bool {
    &&& exists|found: Seq<(usize, Level)>|
        #![trigger peaks_of(quality, s.levels@, s.shapes@, t, found)]
        {
            &&& peaks_of(quality, s.levels@, s.shapes@, t, found)
            &&& remembered(
                envelope,
                before,
                after,
                fundamentals(s.levels@, s.ceilings@, found, found.len()),
            )
        }
    &&& resonances(after, t.score_min, t.persistence_min, r)
}

/// What the tracker remembers of each bin.
pub struct PeakTracker {
    pub persistence: Vec<u32>,
    pub last_prominence: Vec<Level>,
    pub resonance_score: Vec<Level>,
}

/// Whether a bin is among the peaks.
pub open spec fn is_peak(peaks: Seq<(usize, Level)>, k: int) -> bool {
    exists|i: int| 0 <= i < peaks.len() && (#[trigger] peaks[i]).0 == k
}

/// The prominence of each bin after the first `n` peaks: the last one at a bin counts.
pub open spec fn prominence_after(
    before: Seq<Level>,
    peaks: Seq<(usize, Level)>,
    n: nat,
) -> Seq<Level>
    decreases n,
{
    if n == 0 {
        before
    } else {
        prominence_after(before, peaks, (n - 1) as nat).update(
            peaks[n - 1].0 as int,
            peaks[n - 1].1,
        )
    }
}

/// The bins below `n`, but for the first, whose score and persistence are over the thresholds.
pub open spec fn resonant_bins(
    scores: Seq<Level>,
    persistence: Seq<u32>,
    score_min: Level,
    persistence_min: u32,
    n: int,
) -> Seq<(usize, Level)>
    decreases n,
{
    if n <= 1 {
        Seq::empty()
    } else {
        let before = resonant_bins(scores, persistence, score_min, persistence_min, n - 1);
        if scores[n - 1].above(score_min) && persistence[n - 1] > persistence_min {
            before.push(((n - 1) as usize, scores[n - 1]))
        } else {
            before
        }
    }
}

/// The levels of a list of peaks.
pub open spec fn levels_of(peaks: Seq<(usize, Level)>) -> Seq<Level> {
    peaks.map_values(|p: (usize, Level)| p.1)
}

/// Whether `r` holds the peaks by falling level, equals in order, at most `limit` of them.
pub open spec fn ranked(peaks: Seq<(usize, Level)>, limit: nat, r: Seq<(usize, Level)>) -> bool {
    exists|order: Seq<usize>|
        #![trigger ranking(levels_of(peaks), order)]
        ranking(levels_of(peaks), order) && r == picked(peaks, order, limit)
}

/// The peaks by falling level, at most `limit` of them.
pub fn rank_peaks(peaks: &Vec<(usize, Level)>, limit: usize) -> (r: Vec<(usize, Level)>)
    requires
        forall|i: int| 0 <= i < peaks.len() ==> !(#[trigger] peaks@[i]).1.nan(),
    ensures
        ranked(peaks@, limit as nat, r@),
{
    let mut levels: Vec<Level> = Vec::new();
    for i in 0..peaks.len()
        invariant
            levels@ == levels_of(peaks@.take(i as int)),
    {
        levels.push(peaks[i].1);
        proof {
            assert(levels@ =~= levels_of(peaks@.take(i as int + 1)));
        }
    }
    proof {
        assert(peaks@.take(peaks@.len() as int) == peaks@);
    }
    let order: Vec<usize> = order_desc(&levels);
    let count: usize = if order.len() < limit {
        order.len()
    } else {
        limit
    };
    let mut r: Vec<(usize, Level)> = Vec::new();
    for i in 0..count
        invariant
            count <= order.len(),
            ranking(levels_of(peaks@), order@),
            r@ == picked(peaks@, order@, i as nat),
    {
        r.push(peaks[order[i]]);
        proof {
            assert(r@ =~= picked(peaks@, order@, i as nat + 1));
        }
    }
    proof {
        assert(picked(peaks@, order@, count as nat) =~= picked(peaks@, order@, limit as nat));
        assert(ranking(levels_of(peaks@), order@));
    }
    r
}

proof fn lemma_resonant_numbers(
    scores: Seq<Level>,
    persistence: Seq<u32>,
    score_min: Level,
    persistence_min: u32,
    n: int,
)
    requires
        n <= scores.len(),
        scores.len() <= usize::MAX,
    ensures
        forall|i: int|
            0 <= i < resonant_bins(scores, persistence, score_min, persistence_min, n).len() ==> {
                let p = #[trigger] resonant_bins(
                    scores,
                    persistence,
                    score_min,
                    persistence_min,
                    n,
                )[i];
                0 < p.0 < n && !p.1.nan()
            },
    decreases n,
{
    if n > 1 {
        lemma_resonant_numbers(scores, persistence, score_min, persistence_min, n - 1);
        let before = resonant_bins(scores, persistence, score_min, persistence_min, n - 1);
        let now = resonant_bins(scores, persistence, score_min, persistence_min, n);
        assert forall|i: int| 0 <= i < now.len() implies {
            let p = #[trigger] now[i];
            0 < p.0 < n && !p.1.nan()
        } by {
            if i < before.len() {
                assert(now[i] == before[i]);
            }
        }
    }
}

/// Whether a tracker has heard nothing.
pub open spec fn unheard(t: PeakTracker) -> bool {
    &&& t.persistence@ == Seq::new(SPECTRUM_BINS as nat, |k: int| 0u32)
    &&& t.last_prominence@ == Seq::new(SPECTRUM_BINS as nat, |k: int| Level { bits: 0 })
    &&& t.resonance_score@ == Seq::new(SPECTRUM_BINS as nat, |k: int| Level { bits: 0 })
}

impl PeakTracker {
    /// Every list covers all bins, and persistence keeps below its cap.
    pub open spec fn wf(&self) -> bool {
        let n = self.persistence@.len();
        &&& self.last_prominence@.len() == n
        &&& self.resonance_score@.len() == n
        &&& forall|k: int| 0 <= k < n ==> #[trigger] self.persistence@[k] <= PERSIST_CAP
    }

    /// A tracker that has seen nothing.
    pub fn new() -> (r: PeakTracker)
        ensures
            r.wf(),
            unheard(r),
    {
        let r: PeakTracker = PeakTracker {
            persistence: vec![0u32; SPECTRUM_BINS],
            last_prominence: vec![Level { bits: 0 }; SPECTRUM_BINS],
            resonance_score: vec![Level { bits: 0 }; SPECTRUM_BINS],
        };
        proof {
            assert(r.persistence@ =~= Seq::new(SPECTRUM_BINS as nat, |k: int| 0u32));
            assert(r.last_prominence@ =~= Seq::new(
                SPECTRUM_BINS as nat,
                |k: int| Level { bits: 0 },
            ));
            assert(r.resonance_score@ =~= Seq::new(
                SPECTRUM_BINS as nat,
                |k: int| Level { bits: 0 },
            ));
        }
        r
    }

    /// The peaks of a spectrum with their contrast.
    ///
    /// `shapes` holds what was computed around each bin, and `quality` gives the centre
    /// frequency of a candidate over its width.
    pub fn find_peaks<Q: Fn(&Candidate) -> Level>(
        &self,
        spectrum: &Vec<Level>,
        shapes: &Vec<PeakShape>,
        t: &SensitivityThresholds,
        quality: &Q,
    ) -> (r: Vec<(usize, Level)>)
        requires
            shapes.len() == spectrum.len(),
            forall|c: &Candidate| c.lo_edge <= c.hi_edge ==> call_requires(*quality, (c,)),
        ensures
            peaks_of(*quality, spectrum@, shapes@, *t, r@),
            inside(r@, spectrum.len() as int),
    {
        let c: Vec<Candidate> = find_candidates(spectrum, shapes, t);
        let mut qualities: Vec<Level> = Vec::new();
        for i in 0..c.len()
            invariant
                placed(c@, spectrum.len() as int),
                forall|c: &Candidate| c.lo_edge <= c.hi_edge ==> call_requires(*quality, (c,)),
                qualities.len() == i,
                forall|k: int|
                    0 <= k < i ==> call_ensures(*quality, (&#[trigger] c@[k],), qualities@[k]),
        {
            qualities.push(quality(&c[i]));
        }
        proof {
            assert(rated_by(*quality, c@, qualities@));
            lemma_narrow_inside(c@, qualities@, t.min_q, c@.len(), spectrum.len() as int);
        }
        keep_narrow(&c, &qualities, t.min_q)
    }

    /// Takes in the peaks of one frame.
    ///
    /// `envelope` gives the new score of a bin from its score, its prominence and its
    /// persistence.
    pub fn update<E: Fn(Level, Level, u32) -> Level>(
        &mut self,
        peaks: &Vec<(usize, Level)>,
        envelope: &E,
    )
        requires
            old(self).wf(),
            forall|i: int|
                0 <= i < peaks.len() ==> (#[trigger] peaks@[i]).0 < old(self).persistence@.len(),
            forall|s: Level, p: Level, n: u32| call_requires(*envelope, (s, p, n)),
        ensures
            final(self).wf(),
            final(self).persistence@.len() == old(self).persistence@.len(),
            remembered(*envelope, *old(self), *final(self), peaks@),
    {
        let n: usize = self.persistence.len();
        for i in 0..peaks.len()
            invariant
                self.wf(),
                n == self.persistence.len(),
                self.persistence == old(self).persistence,
                self.resonance_score == old(self).resonance_score,
                forall|k: int| 0 <= k < peaks.len() ==> (#[trigger] peaks@[k]).0 < n,
                self.last_prominence@ == prominence_after(
                    old(self).last_prominence@,
                    peaks@,
                    i as nat,
                ),
        {
            self.last_prominence[peaks[i].0] = peaks[i].1;
        }
        let ghost prominence = self.last_prominence@;
        for k in 0..n
            invariant
                self.wf(),
                n == self.persistence.len(),
                n == old(self).persistence.len(),
                self.last_prominence@ == prominence,
                forall|s: Level, p: Level, n: u32| call_requires(*envelope, (s, p, n)),
                forall|i: int|
                    k <= i < n ==> #[trigger] self.persistence@[i] == old(self).persistence@[i],
                forall|i: int|
                    k <= i < n ==> #[trigger] self.resonance_score@[i] == old(
                        self,
                    ).resonance_score@[i],
                forall|i: int|
                    #![trigger self.persistence@[i]]
                    0 <= i < k ==> self.persistence@[i] == persisted(
                        old(self).persistence@[i],
                        is_peak(peaks@, i),
                    ),
                forall|i: int|
                    #![trigger self.resonance_score@[i]]
                    0 <= i < k ==> call_ensures(
                        *envelope,
                        (old(self).resonance_score@[i], prominence[i], self.persistence@[i]),
                        self.resonance_score@[i],
                    ),
        {
            let hit: bool = has_bin(peaks, k);
            let p: u32 = persist(self.persistence[k], hit);
            self.persistence[k] = p;
            let score: Level = envelope(self.resonance_score[k], self.last_prominence[k], p);
            self.resonance_score[k] = score;
        }
    }

    /// Takes in the spectrum of one frame and gives the resonances there are with it.
    pub fn track<Q: Fn(&Candidate) -> Level, E: Fn(Level, Level, u32) -> Level>(
        &mut self,
        s: &Spectrum,
        t: &SensitivityThresholds,
        quality: &Q,
        envelope: &E,
    ) -> (r: Vec<(usize, Level)>)
        requires
            old(self).wf(),
            s.wf(),
            s.levels@.len() == old(self).persistence@.len(),
            forall|c: &Candidate| c.lo_edge <= c.hi_edge ==> call_requires(*quality, (c,)),
            forall|s: Level, p: Level, n: u32| call_requires(*envelope, (s, p, n)),
        ensures
            final(self).wf(),
            final(self).persistence@.len() == old(self).persistence@.len(),
            followed(*quality, *envelope, *old(self), *final(self), *s, *t, r@),
            r.len() <= MAX_RESONANCES,
    {
        let found: Vec<(usize, Level)> = self.find_peaks(&s.levels, &s.shapes, t, quality);
        let peaks: Vec<(usize, Level)> = suppress_harmonics(&s.levels, &s.ceilings, &found);
        proof {
            lemma_fundamentals_from(s.levels@, s.ceilings@, found@, found@.len());
            assert(inside(peaks@, s.levels@.len() as int)) by {
                assert forall|i: int| 0 <= i < peaks@.len() implies (#[trigger] peaks@[i]).0
                    < s.levels@.len() by {
                    let p = peaks@[i];
                    assert(found@.contains(p));
                    let w = choose|w: int| 0 <= w < found@.len() && found@[w] == p;
                    assert(found@[w].0 < s.levels@.len());
                }
            }
        }
        self.update(&peaks, envelope);
        self.resonance_peaks(t)
    }

    /// The resonances by falling score, at most sixteen.
    pub fn resonance_peaks(&self, t: &SensitivityThresholds) -> (r: Vec<(usize, Level)>)
        requires
            self.wf(),
        ensures
            resonances(*self, t.score_min, t.persistence_min, r@),
            r.len() <= MAX_RESONANCES,
    {
        self.resonances_over(t.score_min, t.persistence_min)
    }

    /// The resonances over the given thresholds by falling score, at most sixteen.
    pub fn resonances_over(&self, score_min: Level, persistence_min: u32) -> (r: Vec<
        (usize, Level),
    >)
        requires
            self.wf(),
        ensures
            resonances(*self, score_min, persistence_min, r@),
            r.len() <= MAX_RESONANCES,
    {
        let n: usize = self.persistence.len();
        let mut found: Vec<(usize, Level)> = Vec::new();
        let mut k: usize = 1;
        proof {
            reveal_with_fuel(resonant_bins, 2);
        }
        while n > 0 && k < n - 1
            invariant
                self.wf(),
                n == self.persistence.len(),
                1 <= k,
                n >= 2 ==> k <= n - 1,
                n < 2 ==> k == 1,
                found@ == resonant_bins(
                    self.resonance_score@,
                    self.persistence@,
                    score_min,
                    persistence_min,
                    k as int,
                ),
            decreases n - k,
        {
            if self.resonance_score[k].gt(score_min) && self.persistence[k] > persistence_min {
                found.push((k, self.resonance_score[k]));
            }
            k = k + 1;
        }
        proof {
            assert(self.resonance_score@.len() == self.resonance_score.len());
            if n >= 2 {
                lemma_resonant_numbers(
                    self.resonance_score@,
                    self.persistence@,
                    score_min,
                    persistence_min,
                    n - 1,
                );
            }
        }
        rank_peaks(&found, MAX_RESONANCES)
    }
}

/// Whether the bin is among the peaks.
pub fn has_bin(peaks: &Vec<(usize, Level)>, k: usize) -> (r: bool)
    ensures
        r == is_peak(peaks@, k as int),
{
    for i in 0..peaks.len()
        invariant
            forall|j: int| 0 <= j < i ==> (#[trigger] peaks@[j]).0 != k,
    {
        if peaks[i].0 == k {
            return true;
        }
    }
    false
}

/// The highest overtone that is looked for.
pub const MAX_HARMONIC: usize = 8;

/// How many bins an overtone may lie off its exact place.
pub const BIN_TOLERANCE: usize = 2;

/// Whether the bin `k` lies at the `n`th multiple of the bin `k0`.
pub open spec fn near_multiple(k0: int, k: int, n: int) -> bool {
    -BIN_TOLERANCE <= k0 * n - k <= BIN_TOLERANCE
}

/// Whether the bin `k` lies at an overtone of the bin `k0`.
pub open spec fn harmonic(k0: int, k: int) -> bool {
    exists|n: int| 2 <= n <= MAX_HARMONIC && #[trigger] near_multiple(k0, k, n)
}

/// Whether the peak at `k` is an overtone of the peak at `k0`: it lies higher, at a multiple,
/// and is not louder than an overtone may be.
pub open spec fn overtone_of(
    spectrum: Seq<Level>,
    ceilings: Seq<Level>,
    k0: int,
    k: int,
) -> bool {
    k0 < k && ceilings[k0].at_least(spectrum[k]) && harmonic(k0, k)
}

/// Whether the peak at `k` is an overtone of any of the peaks.
pub open spec fn overtone(
    spectrum: Seq<Level>,
    ceilings: Seq<Level>,
    peaks: Seq<(usize, Level)>,
    k: int,
) -> bool {
    exists|i: int|
        0 <= i < peaks.len() && overtone_of(
            spectrum,
            ceilings,
            (#[trigger] peaks[i]).0 as int,
            k,
        )
}

/// The first `n` peaks without the overtones.
pub open spec fn fundamentals(
    spectrum: Seq<Level>,
    ceilings: Seq<Level>,
    peaks: Seq<(usize, Level)>,
    n: nat,
) -> Seq<(usize, Level)>
    decreases n,
{
    if n == 0 {
        Seq::empty()
    } else {
        let before = fundamentals(spectrum, ceilings, peaks, (n - 1) as nat);
        let p = peaks[n - 1];
        if overtone(spectrum, ceilings, peaks, p.0 as int) {
            before
        } else {
            before.push(p)
        }
    }
}

/// Whether every peak is a bin of the spectrum.
pub open spec fn inside(peaks: Seq<(usize, Level)>, n: int) -> bool {
    forall|i: int| 0 <= i < peaks.len() ==> (#[trigger] peaks[i]).0 < n
}

/// Whether the bin `k` lies at an overtone of the bin `k0`.
pub fn is_harmonic(k0: usize, k: usize) -> (r: bool)
    ensures
        r == harmonic(k0 as int, k as int),
{
    let mut n: u128 = 2;
    while n <= 8
        invariant
            2 <= n <= 9,
            forall|m: int| 2 <= m < n ==> !near_multiple(k0 as int, k as int, m),
        decreases 9 - n,
    {
        proof {
            assert(k0 * n <= 0xffff_ffff_ffff_ffff * 8) by (nonlinear_arith)
                requires
                    k0 <= 0xffff_ffff_ffff_ffff,
                    n <= 8,
            ;
        }
        let multiple: u128 = k0 as u128 * n;
        let place: u128 = k as u128;
        let off: u128 = if multiple < place {
            place - multiple
        } else {
            multiple - place
        };
        if off <= 2 {
            proof {
                assert(near_multiple(k0 as int, k as int, n as int));
            }
            return true;
        }
        n = n + 1;
    }
    false
}

/// Whether the peak at `k` is an overtone of any of the peaks.
fn is_overtone(
    spectrum: &Vec<Level>,
    ceilings: &Vec<Level>,
    peaks: &Vec<(usize, Level)>,
    k: usize,
) -> (r: bool)
    requires
        ceilings.len() == spectrum.len(),
        inside(peaks@, spectrum.len() as int),
        k < spectrum.len(),
    ensures
        r == overtone(spectrum@, ceilings@, peaks@, k as int),
{
    for i in 0..peaks.len()
        invariant
            ceilings.len() == spectrum.len(),
            inside(peaks@, spectrum.len() as int),
            k < spectrum.len(),
            forall|j: int|
                0 <= j < i ==> !overtone_of(
                    spectrum@,
                    ceilings@,
                    (#[trigger] peaks@[j]).0 as int,
                    k as int,
                ),
    {
        let k0: usize = peaks[i].0;
        if k0 < k && ceilings[k0].ge(spectrum[k]) && is_harmonic(k0, k) {
            return true;
        }
    }
    false
}

/// The peaks without those that are overtones of another.
///
/// `ceilings` holds for each bin how loud an overtone of it may be.
pub fn suppress_harmonics(
    spectrum: &Vec<Level>,
    ceilings: &Vec<Level>,
    peaks: &Vec<(usize, Level)>,
) -> (r: Vec<(usize, Level)>)
    requires
        ceilings.len() == spectrum.len(),
        inside(peaks@, spectrum.len() as int),
    ensures
        r@ == fundamentals(spectrum@, ceilings@, peaks@, peaks@.len()),
{
    let mut r: Vec<(usize, Level)> = Vec::new();
    for i in 0..peaks.len()
        invariant
            ceilings.len() == spectrum.len(),
            inside(peaks@, spectrum.len() as int),
            r@ == fundamentals(spectrum@, ceilings@, peaks@, i as nat),
    {
        if !is_overtone(spectrum, ceilings, peaks, peaks[i].0) {
            r.push(peaks[i]);
        }
    }
    r
}

/// The lowest peak is never taken for an overtone.
pub proof fn law_lowest_peak_stays(
    spectrum: Seq<Level>,
    ceilings: Seq<Level>,
    peaks: Seq<(usize, Level)>,
    at: int,
)
    requires
        0 <= at < peaks.len(),
        forall|i: int| 0 <= i < peaks.len() ==> peaks[at].0 <= (#[trigger] peaks[i]).0,
    ensures
        fundamentals(spectrum, ceilings, peaks, peaks.len()).contains(peaks[at]),
{
    assert(!overtone(spectrum, ceilings, peaks, peaks[at].0 as int));
    lemma_kept(spectrum, ceilings, peaks, peaks.len(), at);
}

/// A peak that is louder than every overtone may be is kept.
pub proof fn law_louder_peaks_stay(
    spectrum: Seq<Level>,
    ceilings: Seq<Level>,
    peaks: Seq<(usize, Level)>,
    at: int,
)
    requires
        0 <= at < peaks.len(),
        forall|i: int|
            0 <= i < peaks.len() ==> !ceilings[(#[trigger] peaks[i]).0 as int].at_least(
                spectrum[peaks[at].0 as int],
            ),
    ensures
        fundamentals(spectrum, ceilings, peaks, peaks.len()).contains(peaks[at]),
{
    assert(!overtone(spectrum, ceilings, peaks, peaks[at].0 as int));
    lemma_kept(spectrum, ceilings, peaks, peaks.len(), at);
}

proof fn lemma_kept(
    spectrum: Seq<Level>,
    ceilings: Seq<Level>,
    peaks: Seq<(usize, Level)>,
    n: nat,
    at: int,
)
    requires
        0 <= at < n <= peaks.len(),
        !overtone(spectrum, ceilings, peaks, peaks[at].0 as int),
    ensures
        fundamentals(spectrum, ceilings, peaks, n).contains(peaks[at]),
    decreases n,
{
    let now = fundamentals(spectrum, ceilings, peaks, n);
    if at == n - 1 {
        assert(now.last() == peaks[at]);
    } else {
        lemma_kept(spectrum, ceilings, peaks, (n - 1) as nat, at);
        let before = fundamentals(spectrum, ceilings, peaks, (n - 1) as nat);
        let w = choose|w: int| 0 <= w < before.len() && before[w] == peaks[at];
        assert(now[w] == peaks[at]);
    }
}

/// No peak that is left is an overtone of a peak that is left, so suppressing once more
/// changes nothing.
pub proof fn law_suppressing_twice_is_suppressing_once(
    spectrum: Seq<Level>,
    ceilings: Seq<Level>,
    peaks: Seq<(usize, Level)>,
)
    ensures
        ({
            let once = fundamentals(spectrum, ceilings, peaks, peaks.len());
            fundamentals(spectrum, ceilings, once, once.len()) == once
        }),
{
    let once = fundamentals(spectrum, ceilings, peaks, peaks.len());
    lemma_fundamentals_from(spectrum, ceilings, peaks, peaks.len());
    assert forall|i: int| 0 <= i < once.len() implies !overtone(
        spectrum,
        ceilings,
        once,
        (#[trigger] once[i]).0 as int,
    ) by {
        if overtone(spectrum, ceilings, once, once[i].0 as int) {
            let j = choose|j: int|
                0 <= j < once.len() && overtone_of(
                    spectrum,
                    ceilings,
                    (#[trigger] once[j]).0 as int,
                    once[i].0 as int,
                );
            assert(peaks.contains(once[j]));
            let w = choose|w: int| 0 <= w < peaks.len() && peaks[w] == once[j];
            assert(overtone_of(spectrum, ceilings, peaks[w].0 as int, once[i].0 as int));
            assert(overtone(spectrum, ceilings, peaks, once[i].0 as int));
        }
    }
    lemma_nothing_to_suppress(spectrum, ceilings, once, once.len());
    assert(once.take(once.len() as int) == once);
}

proof fn lemma_fundamentals_from(
    spectrum: Seq<Level>,
    ceilings: Seq<Level>,
    peaks: Seq<(usize, Level)>,
    n: nat,
)
    requires
        n <= peaks.len(),
    ensures
        forall|i: int|
            0 <= i < fundamentals(spectrum, ceilings, peaks, n).len() ==> {
                let p = #[trigger] fundamentals(spectrum, ceilings, peaks, n)[i];
                peaks.contains(p) && !overtone(spectrum, ceilings, peaks, p.0 as int)
            },
    decreases n,
{
    if n > 0 {
        let before = fundamentals(spectrum, ceilings, peaks, (n - 1) as nat);
        let now = fundamentals(spectrum, ceilings, peaks, n);
        lemma_fundamentals_from(spectrum, ceilings, peaks, (n - 1) as nat);
        assert forall|i: int| 0 <= i < now.len() implies {
            let p = #[trigger] now[i];
            peaks.contains(p) && !overtone(spectrum, ceilings, peaks, p.0 as int)
        } by {
            if i < before.len() {
                assert(now[i] == before[i]);
            } else {
                assert(now[i] == peaks[n - 1]);
            }
        }
    }
}

proof fn lemma_nothing_to_suppress(
    spectrum: Seq<Level>,
    ceilings: Seq<Level>,
    peaks: Seq<(usize, Level)>,
    n: nat,
)
    requires
        n <= peaks.len(),
        forall|i: int|
            0 <= i < peaks.len() ==> !overtone(
                spectrum,
                ceilings,
                peaks,
                (#[trigger] peaks[i]).0 as int,
            ),
    ensures
        fundamentals(spectrum, ceilings, peaks, n) == peaks.take(n as int),
    decreases n,
{
    if n > 0 {
        lemma_nothing_to_suppress(spectrum, ceilings, peaks, (n - 1) as nat);
        assert(!overtone(spectrum, ceilings, peaks, peaks[n - 1].0 as int));
        assert(peaks.take(n as int) =~= peaks.take(n - 1).push(peaks[n - 1]));
    } else {
        assert(peaks.take(0) =~= Seq::<(usize, Level)>::empty());
    }
}

/// The level above which a track counts as heard.
pub open spec fn heard_floor() -> Level {
    Level { bits: HEARD_BITS }
}

/// The names of the first `n` relays that are heard at a bin.
pub open spec fn heard_at(relays: Seq<(String, Vec<Level>)>, bin: int, n: nat) -> Seq<Seq<char>>
    decreases n,
{
    if n == 0 {
        Seq::empty()
    } else {
        let r = relays[n - 1];
        let before = heard_at(relays, bin, (n - 1) as nat);
        if bin < r.1@.len() && r.1@[bin].above(heard_floor()) {
            before.push(r.0@)
        } else {
            before
        }
    }
}

/// The names of the relays that are heard at a bin.
fn contributors_at(relays: &Vec<(String, Vec<Level>)>, bin: usize) -> (r: Vec<String>)
    ensures
        texts(r@) == heard_at(relays@, bin as int, relays@.len()),
{
    let mut r: Vec<String> = Vec::new();
    proof {
        assert(texts(r@) =~= Seq::<Seq<char>>::empty());
    }
    for i in 0..relays.len()
        invariant
            texts(r@) == heard_at(relays@, bin as int, i as nat),
    {
        let spectrum: &Vec<Level> = &relays[i].1;
        if bin < spectrum.len() && spectrum[bin].gt(Level { bits: HEARD_BITS }) {
            let ghost before = r@;
            let name: String = relays[i].0.clone();
            r.push(name);
            proof {
                assert(texts(r@) =~= texts(before).push(relays@[i as int].0@));
            }
        }
    }
    r
}

/// The tracks behind each peak: the relays that are heard at its bin.
pub fn attribute_contributors(
    peaks: &Vec<(usize, Level)>,
    relay_spectra: &Vec<(String, Vec<Level>)>,
) -> (r: Vec<(usize, Level, Vec<String>)>)
    ensures
        r.len() == peaks.len(),
        forall|i: int|
            0 <= i < peaks.len() ==> {
                &&& (#[trigger] r@[i]).0 == peaks@[i].0
                &&& r@[i].1 == peaks@[i].1
                &&& texts(r@[i].2@) == heard_at(
                    relay_spectra@,
                    peaks@[i].0 as int,
                    relay_spectra@.len(),
                )
            },
{
    let mut r: Vec<(usize, Level, Vec<String>)> = Vec::new();
    for i in 0..peaks.len()
        invariant
            r.len() == i,
            forall|k: int|
                0 <= k < i ==> {
                    &&& (#[trigger] r@[k]).0 == peaks@[k].0
                    &&& r@[k].1 == peaks@[k].1
                    &&& texts(r@[k].2@) == heard_at(
                        relay_spectra@,
                        peaks@[k].0 as int,
                        relay_spectra@.len(),
                    )
                },
    {
        r.push((peaks[i].0, peaks[i].1, contributors_at(relay_spectra, peaks[i].0)));
    }
    r
}

} // verus!
