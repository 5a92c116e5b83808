//! What holds of the steps of an analysis: of rankings, pairs, windows and persistence.

use crate::level::Level;
use crate::lucent_panel::{Findings, RankedFindings};
use crate::masking::{
    bins_above, collect_above, collision, find_loudest_pair, find_spread, found_level, hold_half,
    law_loudest_pair_is_loudest, law_spread_is_the_loudest_nearby, louder, loudest_pair, pair_scan,
    persist, row_scan, window_hi, window_lo, Source,
};
use crate::max_hold::{named_levels, rank_named};
use crate::rank::{picked, ranked_at, ranking};
use crate::registry::{named_peaks, NamedPeak};
use crate::resonance::{has_bin, levels_of, rank_peaks, PeakTracker, SensitivityThresholds};
use crate::resonance_laws::{
    law_listed_resonances_last_and_score, law_no_better_resonance_is_left_out,
    law_peaks_last_and_the_rest_fades,
};
use crate::text::texts;
use vstd::prelude::*;

verus! {

/// The peaks that are listed are the strongest, by falling level; what is left out is no stronger
/// than what is listed, and is left out only where the list is full.
pub proof fn law_the_strongest_peaks_are_listed(
    peaks: &Vec<(usize, Level)>,
    limit: usize,
    r: Vec<(usize, Level)>,
    i: int,
    k: int,
)
    requires
        forall|a: int| 0 <= a < peaks@.len() ==> !(#[trigger] peaks@[a]).1.nan(),
        call_ensures(rank_peaks, (peaks, limit), r),
    ensures
        r@.len() == (if peaks@.len() < limit {
            peaks@.len()
        } else {
            limit as nat
        }),
        0 <= i < r@.len() ==> peaks@.contains(r@[i]),
        0 < i < r@.len() ==> r@[i - 1].1.at_least(r@[i].1),
        0 <= k < peaks@.len() ==> r@.contains(peaks@[k]) || (r@.len() == limit && (0 <= i < r@.len()
            ==> r@[i].1.at_least(peaks@[k].1))),
{
    let order = choose|order: Seq<usize>|
        #![trigger ranking(levels_of(peaks@), order)]
        ranking(levels_of(peaks@), order) && r@ == picked(peaks@, order, limit as nat);
    let levels = levels_of(peaks@);
    if 0 <= i < r@.len() {
        assert(r@[i] == peaks@[order[i] as int]);
        assert(order[i] < levels.len());
        assert(levels[order[i] as int] == r@[i].1);
        if 0 < i {
            assert(order[i - 1] < levels.len());
            assert(r@[i - 1] == peaks@[order[i - 1] as int]);
            assert(levels[order[i - 1] as int] == r@[i - 1].1);
            assert(!peaks@[order[i] as int].1.nan() && !peaks@[order[i - 1] as int].1.nan());
        }
    }
    if 0 <= k < peaks@.len() {
        assert(ranked_at(order, k));
        let w = choose|w: int| 0 <= w < order.len() && #[trigger] order[w] == k;
        assert(levels[k] == peaks@[k].1);
        if w < r@.len() {
            assert(r@[w] == peaks@[k]);
        } else if 0 <= i < r@.len() {
            assert(!peaks@[order[i] as int].1.nan() && !peaks@[k].1.nan());
            assert(order[i] != order[w] || i == w);
        }
    }
}

/// The same of peaks with names: each is listed with its own names.
pub proof fn law_the_strongest_areas_are_listed(
    peaks: &Vec<NamedPeak>,
    limit: usize,
    r: Vec<NamedPeak>,
    i: int,
)
    requires
        forall|a: int| 0 <= a < peaks@.len() ==> !(#[trigger] peaks@[a]).1.nan(),
        call_ensures(rank_named, (peaks, limit), r),
        0 <= i < r@.len(),
    ensures
        r@.len() == (if peaks@.len() < limit {
            peaks@.len()
        } else {
            limit as nat
        }),
        exists|k: int|
            0 <= k < peaks@.len() && (#[trigger] peaks@[k]).0 == r@[i].0 && peaks@[k].1 == r@[i].1
                && texts(peaks@[k].2@) == texts(r@[i].2@),
        i > 0 ==> r@[i - 1].1.at_least(r@[i].1),
{
    let order = choose|order: Seq<usize>|
        #![trigger ranking(named_levels(peaks@), order)]
        ranking(named_levels(peaks@), order) && named_peaks(r@) == picked(
            named_peaks(peaks@),
            order,
            limit as nat,
        );
    let levels = named_levels(peaks@);
    let n = named_peaks(r@);
    assert(n.len() == r@.len());
    assert(n[i] == (r@[i].0, r@[i].1, texts(r@[i].2@)));
    let k = order[i] as int;
    assert(order[i] < levels.len());
    assert(n[i] == named_peaks(peaks@)[k]);
    assert(named_peaks(peaks@)[k] == (peaks@[k].0, peaks@[k].1, texts(peaks@[k].2@)));
    assert(peaks@[k].0 == r@[i].0);
    if i > 0 {
        assert(n[i - 1] == (r@[i - 1].0, r@[i - 1].1, texts(r@[i - 1].2@)));
        let m = order[i - 1] as int;
        assert(order[i - 1] < levels.len());
        assert(n[i - 1] == named_peaks(peaks@)[m]);
        assert(named_peaks(peaks@)[m].1 == peaks@[m].1);
        assert(!peaks@[m].1.nan() && !peaks@[k].1.nan());
    }
}

/// Findings are listed by their sort, each by falling level.
pub proof fn law_findings_are_listed_by_their_sort(
    f: &Findings,
    limit: usize,
    r: RankedFindings,
    i: int,
)
    requires
        f.wf(),
        call_ensures(Findings::by_level, (f, limit), r),
    ensures
        r.own@.len() == (if f.own.entries@.len() < limit {
            f.own.entries@.len()
        } else {
            limit as nat
        }),
        0 <= i < r.own@.len() ==> f.own.entries@.contains(r.own@[i]),
        r.group@.len() == (if f.group.entries@.len() < limit {
            f.group.entries@.len()
        } else {
            limit as nat
        }),
        0 <= i < r.group@.len() ==> exists|k: int|
            0 <= k < f.group.entries@.len() && (#[trigger] f.group.entries@[k]).0 == r.group@[i].0
                && f.group.entries@[k].1 == r.group@[i].1,
        r.masking@.len() == (if f.masking.entries@.len() < limit {
            f.masking.entries@.len()
        } else {
            limit as nat
        }),
        0 <= i < r.masking@.len() ==> exists|k: int|
            0 <= k < f.masking.entries@.len() && (#[trigger] f.masking.entries@[k]).0
                == r.masking@[i].0 && f.masking.entries@[k].1 == r.masking@[i].1,
{
    let own = choose|order: Seq<usize>|
        #![trigger ranking(levels_of(f.own.entries@), order)]
        ranking(levels_of(f.own.entries@), order) && r.own@ == picked(
            f.own.entries@,
            order,
            limit as nat,
        );
    if 0 <= i < r.own@.len() {
        assert(own[i] < levels_of(f.own.entries@).len());
        assert(r.own@[i] == f.own.entries@[own[i] as int]);
    }
    lemma_listed(f.group.entries@, limit as nat, r.group@, i);
    lemma_listed(f.masking.entries@, limit as nat, r.masking@, i);
}

proof fn lemma_listed(peaks: Seq<NamedPeak>, limit: nat, r: Seq<NamedPeak>, i: int)
    requires
        crate::max_hold::named_ranked(peaks, limit, r),
    ensures
        r.len() == (if peaks.len() < limit {
            peaks.len()
        } else {
            limit
        }),
        0 <= i < r.len() ==> exists|k: int|
            0 <= k < peaks.len() && (#[trigger] peaks[k]).0 == r[i].0 && peaks[k].1 == r[i].1,
{
    let order = choose|order: Seq<usize>|
        #![trigger ranking(named_levels(peaks), order)]
        ranking(named_levels(peaks), order) && named_peaks(r) == picked(
            named_peaks(peaks),
            order,
            limit,
        );
    let n = named_peaks(r);
    assert(n.len() == r.len());
    if 0 <= i < r.len() {
        let k = order[i] as int;
        assert(order[i] < named_levels(peaks).len());
        assert(n[i] == (r[i].0, r[i].1, texts(r[i].2@)));
        assert(n[i] == named_peaks(peaks)[k]);
        assert(named_peaks(peaks)[k] == (peaks[k].0, peaks[k].1, texts(peaks[k].2@)));
        assert(peaks[k].0 == r[i].0);
    }
}

/// A bin is among the peaks where one of them has it.
pub proof fn law_a_bin_is_found_among_peaks(peaks: &Vec<(usize, Level)>, k: usize, r: bool, i: int)
    requires
        call_ensures(has_bin, (peaks, k), r),
    ensures
        0 <= i < peaks@.len() && peaks@[i].0 == k ==> r,
        r ==> exists|j: int| 0 <= j < peaks@.len() && (#[trigger] peaks@[j]).0 == k,
{
}

/// A frame counts its peaks up to 40 and all other bins down; the score follows from the score
/// before, the last prominence and the count, in this order.
pub proof fn law_a_frame_counts_its_peaks<E: Fn(Level, Level, u32) -> Level>(
    t: &mut PeakTracker,
    peaks: &Vec<(usize, Level)>,
    envelope: &E,
    u: (),
    k: int,
    i: int,
)
    requires
        old(t).wf(),
        call_ensures(PeakTracker::update::<E>, (t, peaks, envelope), u),
        0 <= k < old(t).persistence@.len(),
        0 <= i < peaks@.len(),
        forall|a: int|
            0 <= a < peaks@.len() ==> (#[trigger] peaks@[a]).0 < old(t).persistence@.len(),
        forall|a: int, b: int|
            0 <= a < b < peaks@.len() ==> (#[trigger] peaks@[a]).0 < (#[trigger] peaks@[b]).0,
    ensures
        peaks@[i].0 == k ==> final(t).last_prominence@[k] == peaks@[i].1,
        peaks@[i].0 == k && old(t).persistence@[k] < 40 ==> final(t).persistence@[k] == old(t).persistence@[k] + 1,
        peaks@[i].0 == k && old(t).persistence@[k] >= 40 ==> final(t).persistence@[k] == 40,
        (forall|a: int| 0 <= a < peaks@.len() ==> (#[trigger] peaks@[a]).0 != k) ==> final(t).last_prominence@[k] == old(t).last_prominence@[k] && final(t).persistence@[k] == (if old(t).persistence@[k] > 0 {
            old(t).persistence@[k] - 1
        } else {
            0
        }),
        call_ensures(
            *envelope,
            (old(t).resonance_score@[k], final(t).last_prominence@[k], final(t).persistence@[k]),
            final(t).resonance_score@[k],
        ),
{
    law_peaks_last_and_the_rest_fades(*envelope, *old(t), *final(t), peaks@, k);
}

/// The resonances listed have lasted and score above the thresholds; none that is left out scores
/// higher.
pub proof fn law_resonances_last_and_score(
    t: &PeakTracker,
    s: &SensitivityThresholds,
    r: Vec<(usize, Level)>,
    i: int,
    k: int,
)
    requires
        t.wf(),
        t.persistence@.len() <= usize::MAX,
        call_ensures(PeakTracker::resonance_peaks, (t, s), r),
        0 <= i < r@.len(),
        0 < k < t.persistence@.len() - 1,
        t.resonance_score@[k].above(s.score_min),
        t.persistence@[k] > s.persistence_min,
    ensures
        r@.len() <= 16,
        r@[i].1 == t.resonance_score@[r@[i].0 as int],
        r@[i].1.above(s.score_min),
        t.persistence@[r@[i].0 as int] > s.persistence_min,
        r@.contains((k as usize, t.resonance_score@[k])) || (r@.len() == 16 && r@[i].1.at_least(
            t.resonance_score@[k],
        )),
{
    law_listed_resonances_last_and_score(*t, s.score_min, s.persistence_min, r@);
    law_no_better_resonance_is_left_out(*t, s.score_min, s.persistence_min, r@, k);
}

/// The same over given thresholds.
pub proof fn law_resonances_exceed_their_thresholds(
    t: &PeakTracker,
    score_min: Level,
    persistence_min: u32,
    r: Vec<(usize, Level)>,
    i: int,
)
    requires
        t.wf(),
        t.persistence@.len() <= usize::MAX,
        call_ensures(PeakTracker::resonances_over, (t, score_min, persistence_min), r),
        0 <= i < r@.len(),
    ensures
        r@.len() <= 16,
        r@[i].1 == t.resonance_score@[r@[i].0 as int],
        r@[i].1.above(score_min),
        t.persistence@[r@[i].0 as int] > persistence_min,
        i > 0 ==> r@[i - 1].1.at_least(r@[i].1),
{
    law_listed_resonances_last_and_score(*t, score_min, persistence_min, r@);
}

/// The loudest pair is that of two sources whose quieter one no other pair exceeds; there is none
/// where every pair is silent.
pub proof fn law_the_loudest_pair_exceeds_the_others(
    s: &Vec<Source>,
    r: (Option<(usize, usize)>, Level),
    a: int,
    b: int,
)
    requires
        call_ensures(find_loudest_pair, (s,), r),
        0 <= a < b < s@.len(),
        !s@[a].0.nan() && !s@[b].0.nan(),
    ensures
        s@[a].0.at_least(s@[b].0) ==> !s@[b].0.above(r.1),
        s@[b].0.at_least(s@[a].0) ==> !s@[a].0.above(r.1),
        r.0 is Some ==> (r.0->0).0 < (r.0->0).1 < s@.len() && (r.1 == s@[(r.0->0).0 as int].0 || r.1
            == s@[(r.0->0).1 as int].0),
        r.0 is None ==> r.1.bits == 0xc2b4_0000,
{
    law_loudest_pair_is_loudest(s@);
    assert(!collision(s@, (a, b)).above(found_level(s@, loudest_pair(s@))));
}

/// A half window has from 2 to 40 bins; a count goes up to 40 where there is a hit, and else down.
pub proof fn law_windows_and_counts_are_held(
    half: usize,
    held: usize,
    before: u32,
    hit: bool,
    count: u32,
)
    requires
        call_ensures(hold_half, (half,), held),
        before <= 40,
        call_ensures(persist, (before, hit), count),
    ensures
        half < 2 ==> held == 2,
        2 <= half <= 40 ==> held == half,
        half > 40 ==> held == 40,
        hit && before < 40 ==> count == before + 1,
        hit && before == 40 ==> count == 40,
        !hit && before > 0 ==> count == before - 1,
        !hit && before == 0 ==> count == 0,
{
}

/// What spreads to a bin is the loudest level within its window, if any is above -90 dB.
pub proof fn law_the_loudest_nearby_spreads(
    levels: &Vec<Level>,
    j: usize,
    half: usize,
    r: Option<usize>,
    i: int,
)
    requires
        j < levels@.len(),
        call_ensures(find_spread, (levels, j, half), r),
        0 <= i < levels@.len(),
        -half <= i - j <= half,
    ensures
        r is Some ==> -half <= r->0 - j <= half && r->0 < levels@.len() && !levels@[i].above(
            levels@[r->0 as int],
        ) && levels@[r->0 as int].above(Level { bits: 0xc2b4_0000 }),
        r is None ==> !levels@[i].above(Level { bits: 0xc2b4_0000 }),
{
    let lo = window_lo(j as int, half as int);
    let hi = window_hi(j as int, half as int, levels@.len() as int);
    law_spread_is_the_loudest_nearby(levels@, lo, hi);
    assert(lo <= i < hi);
}

proof fn lemma_above(map: Seq<Level>, floor: Level, n: nat)
    requires
        n <= map.len() <= usize::MAX,
    ensures
        forall|i: int|
            0 <= i < bins_above(map, floor, n).len() ==> (#[trigger] bins_above(map, floor, n)[i]).0
                < n && bins_above(map, floor, n)[i].1 == map[bins_above(map, floor, n)[i].0 as int]
                && bins_above(map, floor, n)[i].1.above(floor),
        forall|k: int|
            0 <= k < n && (#[trigger] map[k]).above(floor) ==> bins_above(map, floor, n).contains(
                (k as usize, map[k]),
            ),
    decreases n,
{
    if n > 0 {
        lemma_above(map, floor, (n - 1) as nat);
        let before = bins_above(map, floor, (n - 1) as nat);
        let now = bins_above(map, floor, n);
        assert forall|i: int| 0 <= i < now.len() implies (#[trigger] now[i]).0 < n && now[i].1
            == map[now[i].0 as int] && now[i].1.above(floor) by {
            if i < before.len() {
                assert(now[i] == before[i]);
            }
        }
        assert forall|k: int| 0 <= k < n && (#[trigger] map[k]).above(floor) implies now.contains(
            (k as usize, map[k]),
        ) by {
            if k < n - 1 {
                let i = choose|i: int| 0 <= i < before.len() && before[i] == (k as usize, map[k]);
                assert(now[i] == (k as usize, map[k]));
            } else {
                assert(now.last() == (k as usize, map[k]));
            }
        }
    }
}

/// The bins collected are those above the floor, and all of them.
pub proof fn law_bins_above_the_floor_are_collected(
    map: &Vec<Level>,
    floor: Level,
    r: Vec<(usize, Level)>,
    i: int,
    k: int,
)
    requires
        map@.len() <= usize::MAX,
        call_ensures(collect_above, (map, floor), r),
    ensures
        0 <= i < r@.len() ==> r@[i].0 < map@.len() && r@[i].1 == map@[r@[i].0 as int]
            && r@[i].1.above(floor),
        0 <= k < map@.len() && map@[k].above(floor) ==> r@.contains((k as usize, map@[k])),
{
    lemma_above(map@, floor, map@.len());
}

/// Whether the pairs before a place are no louder than what was found, which came first among equals.
spec fn found_first(s: Seq<Source>, f: Option<(int, int)>, a: int, b: int) -> bool {
    &&& !found_level(s, f).nan()
    &&& f is Some ==> 0 <= (f->0).0 < (f->0).1 < s.len() && ((f->0).0 < a || ((f->0).0 == a && (
    f->0).1 < b))
    &&& forall|x: int, y: int|
        #![trigger collision(s, (x, y))]
        0 <= x < y < s.len() && (x < a || (x == a && y < b)) ==> !collision(s, (x, y)).above(
            found_level(s, f),
        )
    &&& f is Some ==> forall|x: int, y: int|
        #![trigger collision(s, (x, y))]
        0 <= x < y < s.len() && (x < (f->0).0 || (x == (f->0).0 && y < (f->0).1)) && !collision(
            s,
            (x, y),
        ).nan() ==> found_level(s, f).above(collision(s, (x, y)))
}

proof fn lemma_row_first(s: Seq<Source>, f: Option<(int, int)>, a: int, b: int)
    requires
        0 <= a < s.len(),
        b <= s.len(),
        found_first(s, f, a, a + 1),
    ensures
        found_first(
            s,
            row_scan(s, f, a, b),
            a,
            if b <= a + 1 {
                a + 1
            } else {
                b
            },
        ),
    decreases b,
{
    if b > a + 1 {
        lemma_row_first(s, f, a, b - 1);
        let prior = row_scan(s, f, a, b - 1);
        assert(found_first(s, prior, a, b - 1));
        let now = row_scan(s, f, a, b);
        assert(now == louder(s, prior, (a, b - 1)));
        assert forall|x: int, y: int|
            #![trigger collision(s, (x, y))]
            0 <= x < y < s.len() && (x < a || (x == a && y < b)) implies !collision(
            s,
            (x, y),
        ).above(found_level(s, now)) by {
            if x == a && y == b - 1 {
            } else {
                assert(!collision(s, (x, y)).above(found_level(s, prior)));
            }
        }
    }
}

proof fn lemma_scan_first(s: Seq<Source>, n: int)
    requires
        0 <= n <= s.len(),
    ensures
        found_first(s, pair_scan(s, n), n, n + 1),
    decreases n,
{
    if n > 0 {
        lemma_scan_first(s, n - 1);
        lemma_row_first(s, pair_scan(s, n - 1), n - 1, s.len() as int);
    }
}

/// Of pairs that are equally loud the first one is found.
pub proof fn law_the_first_of_equal_pairs_is_found(
    s: &Vec<Source>,
    r: (Option<(usize, usize)>, Level),
    a: int,
    b: int,
)
    requires
        call_ensures(find_loudest_pair, (s,), r),
        r.0 is Some,
        0 <= a < b < s@.len(),
        a < (r.0->0).0 || (a == (r.0->0).0 && b < (r.0->0).1),
        !s@[a].0.nan() && !s@[b].0.nan(),
    ensures
        s@[a].0.at_least(s@[b].0) ==> r.1.above(s@[b].0),
        s@[b].0.at_least(s@[a].0) ==> r.1.above(s@[a].0),
{
    lemma_scan_first(s@, s@.len() as int);
    assert(found_level(s@, loudest_pair(s@)).above(collision(s@, (a, b))));
}

} // verus!
