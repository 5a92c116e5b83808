//! The loudest level seen at each bin, with the tracks behind it.

use crate::level::Level;
use crate::masking::copy_names;
use crate::rank::{order_desc, picked, ranking};
use crate::registry::{named_peaks, NamedPeak};
use crate::resonance::{rank_peaks, ranked};
use crate::text::texts;
use vstd::prelude::*;

verus! {

/// The level held at each bin, in the order in which the bins came.
pub struct ScoreHold {
    pub entries: Vec<(usize, Level)>,
}

/// The level held at each bin with the tracks behind it, in the order in which the bins came.
pub struct NamedHold {
    pub entries: Vec<NamedPeak>,
}

/// Where the bin stands among the first `n` entries.
pub open spec fn place(bins: Seq<usize>, bin: usize, n: nat) -> Option<int>
    decreases n,
{
    if n == 0 {
        None
    } else {
        match place(bins, bin, (n - 1) as nat) {
            Some(k) => Some(k),
            None => if bins[n - 1] == bin {
                Some(n - 1)
            } else {
                None
            },
        }
    }
}

/// The bins of a list of scores.
pub open spec fn score_bins(entries: Seq<(usize, Level)>) -> Seq<usize> {
    entries.map_values(|e: (usize, Level)| e.0)
}

/// The values of an entry: bin, level and names.
pub type NamedModel = (usize, Level, Seq<Seq<char>>);

/// The bins of a list of named levels.
pub open spec fn named_bins(entries: Seq<NamedModel>) -> Seq<usize> {
    entries.map_values(|e: NamedModel| e.0)
}

/// The entries once a score has come: the louder one is held.
pub open spec fn score_held(entries: Seq<(usize, Level)>, bin: usize, score: Level) -> Seq<
    (usize, Level),
> {
    match place(score_bins(entries), bin, entries.len()) {
        Some(k) => if score.above(entries[k].1) {
            entries.update(k, (bin, score))
        } else {
            entries
        },
        None => entries.push((bin, score)),
    }
}

/// The entries once a named level has come: the louder one is held with its tracks.
pub open spec fn named_held(
    entries: Seq<NamedModel>,
    bin: usize,
    score: Level,
    names: Seq<Seq<char>>,
) -> Seq<NamedModel> {
    match place(named_bins(entries), bin, entries.len()) {
        Some(k) => if score.above(entries[k].1) {
            entries.update(k, (bin, score, names))
        } else {
            entries
        },
        None => entries.push((bin, score, names)),
    }
}

proof fn lemma_place_stays(bins: Seq<usize>, bin: usize, n: nat, m: nat)
    requires
        n <= m,
        place(bins, bin, n) is Some,
    ensures
        place(bins, bin, m) == place(bins, bin, n),
    decreases m,
{
    if n < m {
        lemma_place_stays(bins, bin, n, (m - 1) as nat);
    }
}

/// The place of a bin holds that bin, and a bin without a place is not there.
pub proof fn lemma_place(bins: Seq<usize>, bin: usize, n: nat)
    requires
        n <= bins.len(),
    ensures
        match place(bins, bin, n) {
            Some(k) => 0 <= k < n && bins[k] == bin,
            None => forall|k: int| 0 <= k < n ==> #[trigger] bins[k] != bin,
        },
    decreases n,
{
    if n > 0 {
        lemma_place(bins, bin, (n - 1) as nat);
    }
}

/// Whether no bin is there twice.
pub open spec fn distinct(bins: Seq<usize>) -> bool {
    forall|i: int, j: int| 0 <= i < j < bins.len() ==> #[trigger] bins[i] != #[trigger] bins[j]
}

impl ScoreHold {
    /// No bin is there twice, and every level is a number.
    pub open spec fn wf(&self) -> bool {
        &&& distinct(score_bins(self.entries@))
        &&& forall|i: int| 0 <= i < self.entries@.len() ==> !(#[trigger] self.entries@[i]).1.nan()
    }

    /// Nothing is held.
    pub fn new() -> (r: ScoreHold)
        ensures
            r.wf(),
            r.entries@.len() == 0,
    {
        ScoreHold { entries: Vec::new() }
    }

    /// The entries by falling level, at most `limit`.
    pub fn ranked_entries(&self, limit: usize) -> (r: Vec<(usize, Level)>)
        requires
            self.wf(),
        ensures
            ranked(self.entries@, limit as nat, r@),
    {
        rank_peaks(&self.entries, limit)
    }
}

/// Takes in a score at a bin.
pub fn max_hold_score(map: &mut ScoreHold, bin: usize, score: Level)
    requires
        old(map).wf(),
        !score.nan(),
    ensures
        final(map).wf(),
        final(map).entries@ == score_held(old(map).entries@, bin, score),
{
    let ghost before = map.entries@;
    let ghost bins = score_bins(before);
    let count: usize = map.entries.len();
    for i in 0..count
        invariant
            count == before.len(),
            map.entries@ == before,
            bins == score_bins(before),
            map.wf(),
            !score.nan(),
            before == old(map).entries@,
            place(bins, bin, i as nat) is None,
    {
        if map.entries[i].0 == bin {
            proof {
                assert(bins[i as int] == bin);
                lemma_place_stays(bins, bin, i as nat + 1, bins.len());
            }
            if score.gt(map.entries[i].1) {
                map.entries[i] = (bin, score);
                proof {
                    assert(score_bins(map.entries@) =~= bins);
                }
            }
            return;
        }
        proof {
            assert(bins[i as int] != bin);
        }
    }
    map.entries.push((bin, score));
    proof {
        lemma_place(bins, bin, bins.len());
        assert(score_bins(map.entries@) =~= bins.push(bin));
    }
}

impl NamedHold {
    /// No bin is there twice, and every level is a number.
    pub open spec fn wf(&self) -> bool {
        &&& distinct(named_bins(named_peaks(self.entries@)))
        &&& forall|i: int| 0 <= i < self.entries@.len() ==> !(#[trigger] self.entries@[i]).1.nan()
    }

    /// Nothing is held.
    pub fn new() -> (r: NamedHold)
        ensures
            r.wf(),
            r.entries@.len() == 0,
    {
        NamedHold { entries: Vec::new() }
    }

    /// The entries by falling level, at most `limit`.
    pub fn ranked_entries(&self, limit: usize) -> (r: Vec<NamedPeak>)
        requires
            self.wf(),
        ensures
            named_ranked(self.entries@, limit as nat, r@),
    {
        rank_named(&self.entries, limit)
    }
}

/// The levels of a list of named peaks.
pub open spec fn named_levels(peaks: Seq<NamedPeak>) -> Seq<Level> {
    peaks.map_values(|p: NamedPeak| p.1)
}

/// Whether `r` holds the named peaks by falling level, equals in order, at most `limit`.
pub open spec fn named_ranked(peaks: Seq<NamedPeak>, limit: nat, r: Seq<NamedPeak>) -> bool {
    exists|order: Seq<usize>|
        #![trigger ranking(named_levels(peaks), order)]
        ranking(named_levels(peaks), order) && named_peaks(r) == picked(
            named_peaks(peaks),
            order,
            limit,
        )
}

/// The named peaks by falling level, at most `limit` of them.
pub fn rank_named(peaks: &Vec<NamedPeak>, limit: usize) -> (r: Vec<NamedPeak>)
    requires
        forall|i: int| 0 <= i < peaks.len() ==> !(#[trigger] peaks@[i]).1.nan(),
    ensures
        named_ranked(peaks@, limit as nat, r@),
{
    let mut levels: Vec<Level> = Vec::new();
    for i in 0..peaks.len()
        invariant
            levels@ == named_levels(peaks@.take(i as int)),
    {
        levels.push(peaks[i].1);
        proof {
            assert(levels@ =~= named_levels(peaks@.take(i as int + 1)));
        }
    }
    proof {
        assert(peaks@.take(peaks@.len() as int) == peaks@);
    }
    let order: Vec<usize> = order_desc(&levels);
    let count: usize = if order.len() < limit {
        order.len()
    } else {
        limit
    };
    let mut r: Vec<NamedPeak> = Vec::new();
    proof {
        assert(named_peaks(r@) =~= picked(named_peaks(peaks@), order@, 0));
    }
    for i in 0..count
        invariant
            count <= order.len(),
            ranking(named_levels(peaks@), order@),
            named_peaks(r@) == picked(named_peaks(peaks@), order@, i as nat),
    {
        let p: &NamedPeak = &peaks[order[i]];
        let ghost before = r@;
        r.push((p.0, p.1, copy_names(&p.2)));
        proof {
            assert(named_peaks(r@) =~= named_peaks(before).push((p.0, p.1, texts(p.2@))));
            assert(named_peaks(r@) =~= picked(named_peaks(peaks@), order@, i as nat + 1));
        }
    }
    proof {
        assert(picked(named_peaks(peaks@), order@, count as nat) =~= picked(
            named_peaks(peaks@),
            order@,
            limit as nat,
        ));
        assert(ranking(named_levels(peaks@), order@));
    }
    r
}

/// Takes in a named level at a bin.
pub fn max_hold_named(map: &mut NamedHold, bin: usize, score: Level, names: &Vec<String>)
    requires
        old(map).wf(),
        !score.nan(),
    ensures
        final(map).wf(),
        named_peaks(final(map).entries@) == named_held(
            named_peaks(old(map).entries@),
            bin,
            score,
            texts(names@),
        ),
{
    let ghost before = map.entries@;
    let ghost bins = named_bins(named_peaks(before));
    let count: usize = map.entries.len();
    for i in 0..count
        invariant
            count == before.len(),
            map.entries@ == before,
            bins == named_bins(named_peaks(before)),
            map.wf(),
            !score.nan(),
            before == old(map).entries@,
            place(bins, bin, i as nat) is None,
    {
        if map.entries[i].0 == bin {
            proof {
                assert(bins[i as int] == bin);
                lemma_place_stays(bins, bin, i as nat + 1, bins.len());
                assert(named_peaks(before)[i as int].1 == before[i as int].1);
            }
            if score.gt(map.entries[i].1) {
                map.entries[i] = (bin, score, copy_names(names));
                proof {
                    assert(named_bins(named_peaks(map.entries@)) =~= bins);
                    assert(named_peaks(map.entries@) =~= named_peaks(before).update(
                        i as int,
                        (bin, score, texts(names@)),
                    ));
                }
            }
            return;
        }
        proof {
            assert(bins[i as int] != bin);
        }
    }
    map.entries.push((bin, score, copy_names(names)));
    proof {
        lemma_place(bins, bin, bins.len());
        assert(named_bins(named_peaks(map.entries@)) =~= bins.push(bin));
        assert(named_peaks(map.entries@) =~= named_peaks(before).push((bin, score, texts(names@))));
    }
}

/// Once a score has come, what is held at its bin is not below it nor below what was held,
/// and every other bin holds what it held.
pub proof fn law_score_holds_never_fall(entries: Seq<(usize, Level)>, bin: usize, score: Level)
    requires
        distinct(score_bins(entries)),
        !score.nan(),
        forall|i: int| 0 <= i < entries.len() ==> !(#[trigger] entries[i]).1.nan(),
    ensures
        ({
            let after = score_held(entries, bin, score);
            &&& after.len() >= entries.len()
            &&& forall|i: int|
                0 <= i < entries.len() ==> {
                    &&& (#[trigger] after[i]).0 == entries[i].0
                    &&& !entries[i].1.above(after[i].1)
                    &&& entries[i].0 != bin ==> after[i] == entries[i]
                }
            &&& exists|i: int|
                0 <= i < after.len() && (#[trigger] after[i]).0 == bin && !score.above(after[i].1)
        }),
{
    let bins = score_bins(entries);
    lemma_place(bins, bin, bins.len());
    let after = score_held(entries, bin, score);
    match place(bins, bin, bins.len()) {
        Some(k) => {
            assert(bins[k] == entries[k].0);
            assert(after[k].0 == bin && !score.above(after[k].1));
            assert forall|i: int| 0 <= i < entries.len() && i != k implies entries[i].0 != bin by {
                assert(bins[i] == entries[i].0);
            }
        },
        None => {
            let n = entries.len() as int;
            assert(after[n].0 == bin);
            assert forall|i: int| 0 <= i < n implies entries[i].0 != bin by {
                assert(bins[i] == entries[i].0);
            }
        },
    }
}

} // verus!
