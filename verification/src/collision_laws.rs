//! What holds of the collisions that are found, whatever the tracks.

use crate::level::Level;
use crate::masking::{
    bins_above, collision, compared, found_level, held_half, law_loudest_pair_is_loudest,
    law_spread_is_the_loudest_nearby, loudest_in, loudest_pair, masked_at, own_source, own_view,
    pair_names, peak_levels, peak_values, persisted, relay_sources, source_name, sources_at,
    spectra_of, spread_from, window_hi, window_lo, MaskingAnalyzer, Source,
};
use crate::rank::{picked, ranked_at, ranking};
use crate::text::texts;
use vstd::prelude::*;
use vstd::string::*;

verus! {

/// -90 dB.
pub open spec fn nothing() -> Level {
    Level { bits: 0xc2b4_0000 }
}

/// The level of a track at a bin: -1 is the own signal, any other number a relay.
pub open spec fn track_level(
    own: Option<Seq<Level>>,
    relays: Seq<(String, Vec<Level>)>,
    track: int,
    j: int,
) -> Level {
    if track >= 0 {
        relays[track].1@[j]
    } else if j < own->0.len() {
        own->0[j]
    } else {
        nothing()
    }
}

/// Whether a track takes part at a bin and is above the floor there.
pub open spec fn track_heard(
    own: Option<Seq<Level>>,
    relays: Seq<(String, Vec<Level>)>,
    floor: Level,
    track: int,
    j: int,
) -> bool {
    &&& -1 <= track < relays.len()
    &&& track == -1 ==> own is Some
    &&& track >= 0 ==> j < relays[track].1@.len()
    &&& track_level(own, relays, track, j).above(floor)
}

/// The name of a track.
pub open spec fn track_name(relays: Seq<(String, Vec<Level>)>, track: int) -> Seq<char> {
    if track >= 0 {
        relays[track].0@
    } else {
        "Own"@
    }
}

/// Whether tracks are those heard at a bin: the own signal first, then the relays in order, up to
/// the seventeenth.
pub open spec fn tracks_heard(
    own: Option<Seq<Level>>,
    relays: Seq<(String, Vec<Level>)>,
    floor: Level,
    j: int,
    tracks: Seq<int>,
) -> bool {
    &&& tracks.len() <= 17
    &&& forall|a: int, b: int|
        0 <= a < b < tracks.len() ==> (#[trigger] tracks[a]) < (#[trigger] tracks[b])
    &&& forall|a: int|
        0 <= a < tracks.len() ==> track_heard(own, relays, floor, #[trigger] tracks[a], j)
    &&& forall|t: int| #[trigger]
        track_heard(own, relays, floor, t, j) ==> tracks.contains(t) || (tracks.len() == 17
            && tracks[16] < t)
}

/// Whether a level is the quieter of two.
pub open spec fn quieter(a: Level, b: Level, m: Level) -> bool {
    &&& m == a || m == b
    &&& a.at_least(m)
    &&& b.at_least(m)
}

/// Whether the sources are those of tracks.
spec fn sources_of(
    own: Option<Seq<Level>>,
    relays: Seq<(String, Vec<Level>)>,
    j: int,
    tracks: Seq<int>,
    s: Seq<Source>,
) -> bool {
    &&& s.len() == tracks.len()
    &&& forall|a: int|
        0 <= a < tracks.len() ==> {
            &&& (#[trigger] s[a]).0 == track_level(own, relays, tracks[a], j)
            &&& s[a].1 == (if tracks[a] >= 0 {
                Some(tracks[a] as usize)
            } else {
                None
            })
        }
}

/// The tracks among the own signal and the first `n` relays that are heard.
proof fn lemma_all_tracks(
    own: Option<Seq<Level>>,
    relays: Seq<(String, Vec<Level>)>,
    floor: Level,
    j: int,
    n: nat,
) -> (tracks: Seq<int>)
    requires
        n <= relays.len() <= usize::MAX,
    ensures
        sources_of(
            own,
            relays,
            j,
            tracks,
            own_source(own, floor, j) + relay_sources(spectra_of(relays), floor, j, n),
        ),
        forall|a: int, b: int|
            0 <= a < b < tracks.len() ==> (#[trigger] tracks[a]) < (#[trigger] tracks[b]),
        forall|a: int|
            0 <= a < tracks.len() ==> track_heard(own, relays, floor, #[trigger] tracks[a], j)
                && tracks[a] < n,
        forall|t: int| #[trigger]
            track_heard(own, relays, floor, t, j) && t < n ==> tracks.contains(t),
    decreases n,
{
    let first = own_source(own, floor, j);
    if n == 0 {
        let none = relay_sources(spectra_of(relays), floor, j, 0);
        assert(first + none =~= first);
        let tracks: Seq<int> = if first.len() > 0 {
            seq![-1]
        } else {
            Seq::empty()
        };
        assert forall|t: int| #[trigger]
            track_heard(own, relays, floor, t, j) && t < 0 implies tracks.contains(t) by {
            assert(t == -1);
            assert(tracks[0] == -1);
        }
        tracks
    } else {
        let before = lemma_all_tracks(own, relays, floor, j, (n - 1) as nat);
        let i = n - 1;
        assert(spectra_of(relays)[i] == relays[i].1@);
        let was = first + relay_sources(spectra_of(relays), floor, j, (n - 1) as nat);
        let now = first + relay_sources(spectra_of(relays), floor, j, n);
        if track_heard(own, relays, floor, i, j) {
            let x: Source = (relays[i].1@[j], Some(i as usize));
            assert(now =~= was.push(x));
            let tracks = before.push(i);
            assert forall|t: int| #[trigger]
                track_heard(own, relays, floor, t, j) && t < n implies tracks.contains(t) by {
                if t == i {
                    assert(tracks.last() == t);
                } else {
                    let w = choose|w: int| 0 <= w < before.len() && before[w] == t;
                    assert(tracks[w] == t);
                }
            }
            tracks
        } else {
            assert(now =~= was);
            before
        }
    }
}

/// The sources that are compared at a bin are the tracks heard there.
proof fn lemma_tracks(
    own: Option<Seq<Level>>,
    relays: Seq<(String, Vec<Level>)>,
    floor: Level,
    j: int,
) -> (tracks: Seq<int>)
    requires
        relays.len() <= usize::MAX,
    ensures
        tracks_heard(own, relays, floor, j, tracks),
        sources_of(own, relays, j, tracks, sources_at(own, spectra_of(relays), floor, j)),
{
    let all = lemma_all_tracks(own, relays, floor, j, relays.len());
    let s = own_source(own, floor, j) + relay_sources(
        spectra_of(relays),
        floor,
        j,
        relays.len(),
    );
    assert(spectra_of(relays).len() == relays.len());
    assert(sources_at(own, spectra_of(relays), floor, j) == compared(s));
    if all.len() > 17 {
        let tracks = all.take(17);
        assert forall|t: int| #[trigger] track_heard(own, relays, floor, t, j) implies tracks.contains(
            t,
        ) || tracks[16] < t by {
            let w = choose|w: int| 0 <= w < all.len() && all[w] == t;
            if w < 17 {
                assert(tracks[w] == t);
            } else {
                assert(all[16] < all[w]);
            }
        }
        tracks
    } else {
        all
    }
}

/// A collision is named after its two tracks.  Where two tracks that are heard at a bin collide
/// above -90 dB, the level is that of the quieter of a pair, no pair is louder, and the names are
/// those of the first and of the second track of the pair; else there is no collision and no name.
pub proof fn law_a_collision_is_named_after_its_two_tracks(
    before: MaskingAnalyzer,
    after: MaskingAnalyzer,
    own: Option<Seq<Level>>,
    relays: Seq<(String, Vec<Level>)>,
    floor: Level,
    half: int,
    persistence_min: u32,
    j: int,
) -> (r: (Seq<int>, int, int))
    requires
        relays.len() <= usize::MAX,
        masked_at(before, after, own, relays, floor, half, persistence_min, j),
    ensures
        tracks_heard(own, relays, floor, j, r.0),
        forall|a: int, b: int, m: Level|
            0 <= a < b < r.0.len() && #[trigger] quieter(
                track_level(own, relays, r.0[a], j),
                track_level(own, relays, r.0[b], j),
                m,
            ) ==> !m.above(after.scratch@[j]),
        if 0 <= r.1 < r.2 < r.0.len() {
            &&& quieter(
                track_level(own, relays, r.0[r.1], j),
                track_level(own, relays, r.0[r.2], j),
                after.scratch@[j],
            )
            &&& after.scratch@[j].above(nothing())
            &&& after.scratch_contributors@[j]@.len() == 2
            &&& after.scratch_contributors@[j]@[0]@ == track_name(relays, r.0[r.1])
            &&& after.scratch_contributors@[j]@[1]@ == track_name(relays, r.0[r.2])
        } else {
            after.scratch@[j] == nothing() && after.scratch_contributors@[j]@.len() == 0
        },
{
    let tracks = lemma_tracks(own, relays, floor, j);
    let s = sources_at(own, spectra_of(relays), floor, j);
    law_loudest_pair_is_loudest(s);
    let names = texts(after.scratch_contributors@[j]@);
    assert(names.len() == after.scratch_contributors@[j]@.len());
    assert forall|a: int, b: int, m: Level|
        0 <= a < b < tracks.len() && #[trigger] quieter(
            track_level(own, relays, tracks[a], j),
            track_level(own, relays, tracks[b], j),
            m,
        ) implies !m.above(after.scratch@[j]) by {
        assert(track_heard(own, relays, floor, tracks[a], j));
        assert(track_heard(own, relays, floor, tracks[b], j));
        assert(!collision(s, (a, b)).above(found_level(s, loudest_pair(s))));
        assert(s[a].0 == track_level(own, relays, tracks[a], j));
        assert(s[b].0 == track_level(own, relays, tracks[b], j));
        assert(m.rank() == collision(s, (a, b)).rank() && !m.nan());
    }
    match loudest_pair(s) {
        Some(p) => {
            assert(track_heard(own, relays, floor, tracks[p.0], j));
            assert(track_heard(own, relays, floor, tracks[p.1], j));
            assert(s[p.0].0 == track_level(own, relays, tracks[p.0], j));
            assert(s[p.1].0 == track_level(own, relays, tracks[p.1], j));
            assert(names[0] == after.scratch_contributors@[j]@[0]@);
            assert(names[1] == after.scratch_contributors@[j]@[1]@);
            assert(source_name(relays, s[p.0]) == track_name(relays, tracks[p.0]));
            assert(source_name(relays, s[p.1]) == track_name(relays, tracks[p.1]));
            (tracks, p.0, p.1)
        },
        None => {
            assert(names == pair_names(relays, s, None));
            (tracks, 0, 0)
        },
    }
}

/// Where the own signal and the only relay are both above the floor, itself not below -90 dB, they
/// collide: the names are that of the own signal and that of the relay, and the level is that of
/// the quieter.
pub proof fn law_own_signal_and_relay_are_both_named(
    before: MaskingAnalyzer,
    after: MaskingAnalyzer,
    own: Option<Seq<Level>>,
    relays: Seq<(String, Vec<Level>)>,
    floor: Level,
    half: int,
    persistence_min: u32,
    j: int,
)
    requires
        masked_at(before, after, own, relays, floor, half, persistence_min, j),
        relays.len() == 1,
        own is Some,
        0 <= j < own->0.len(),
        j < relays[0].1@.len(),
        own->0[j].above(floor),
        relays[0].1@[j].above(floor),
        floor.at_least(Level { bits: 0xc2b4_0000 }),
    ensures
        quieter(own->0[j], relays[0].1@[j], after.scratch@[j]),
        after.scratch_contributors@[j]@.len() == 2,
        after.scratch_contributors@[j]@[0]@ == "Own"@,
        after.scratch_contributors@[j]@[1]@ == relays[0].0@,
{
    let (tracks, a, b) = law_a_collision_is_named_after_its_two_tracks(
        before,
        after,
        own,
        relays,
        floor,
        half,
        persistence_min,
        j,
    );
    assert(track_heard(own, relays, floor, -1, j));
    assert(track_heard(own, relays, floor, 0, j));
    assert forall|i: int| 0 <= i < tracks.len() implies tracks[i] == -1 || tracks[i] == 0 by {
        assert(track_heard(own, relays, floor, tracks[i], j));
    }
    if tracks.len() > 2 {
        assert(tracks[0] < tracks[1] && tracks[1] < tracks[2]);
    }
    let x = choose|x: int| 0 <= x < tracks.len() && tracks[x] == -1;
    let y = choose|y: int| 0 <= y < tracks.len() && tracks[y] == 0;
    if y < x {
        assert(tracks[y] < tracks[x]);
    }
    let l = own->0[j];
    let r = relays[0].1@[j];
    let m = if l.above(r) {
        r
    } else {
        l
    };
    assert(quieter(track_level(own, relays, tracks[x], j), track_level(own, relays, tracks[y], j), m));
    assert(m.above(nothing()));
    assert(0 <= a < b < tracks.len());
    assert(tracks[a] < tracks[b]);
}

/// A collision is spread to the bins around it: at a bin shows the loudest of the window around
/// it, the first of equals, with the names from there; where nothing in the window is above
/// -90 dB, nothing shows.
pub proof fn law_a_collision_is_spread_around(
    before: MaskingAnalyzer,
    after: MaskingAnalyzer,
    own: Option<Seq<Level>>,
    relays: Seq<(String, Vec<Level>)>,
    floor: Level,
    half: int,
    persistence_min: u32,
    j: int,
) -> (from: int)
    requires
        masked_at(before, after, own, relays, floor, half, persistence_min, j),
        0 <= j < after.scratch@.len(),
        half >= 0,
    ensures
        0 <= from < after.scratch@.len(),
        -half <= from - j <= half,
        after.masking_contributors@[j]@ == after.scratch_contributors@[from]@,
        forall|i: int|
            0 <= i < after.scratch@.len() && -half <= i - j <= half
                ==> !(#[trigger] after.scratch@[i]).above(after.raw@[j]),
        if after.scratch@[from].above(nothing()) {
            &&& after.raw@[j] == after.scratch@[from]
            &&& forall|i: int|
                0 <= i < from && -half <= i - j && !(#[trigger] after.scratch@[i]).nan()
                    ==> after.scratch@[from].above(after.scratch@[i])
        } else {
            after.raw@[j] == nothing() && from == j
        },
{
    let s = after.scratch@;
    let lo = window_lo(j, half);
    let hi = window_hi(j, half, s.len() as int);
    law_spread_is_the_loudest_nearby(s, lo, hi);
    assert(spread_from(s, j, half) == loudest_in(s, lo, hi));
    match loudest_in(s, lo, hi) {
        Some(k) => k,
        None => j,
    }
}

/// A collision shows only once it lasts: at each bin the frames count up to 40 while the level is
/// above the floor and down to 0 while it is not, and the level shows where they are more than
/// asked for, else -90 dB.
pub proof fn law_a_collision_counts_its_frames(
    before: MaskingAnalyzer,
    after: MaskingAnalyzer,
    own: Option<Seq<Level>>,
    relays: Seq<(String, Vec<Level>)>,
    floor: Level,
    half: int,
    persistence_min: u32,
    j: int,
)
    requires
        masked_at(before, after, own, relays, floor, half, persistence_min, j),
        before.persistence@[j] <= 40,
    ensures
        after.raw@[j].above(floor) ==> after.persistence@[j] == (if before.persistence@[j] == 40 {
            40
        } else {
            before.persistence@[j] + 1
        }),
        !after.raw@[j].above(floor) ==> after.persistence@[j] == (if before.persistence@[j] == 0 {
            0
        } else {
            before.persistence@[j] - 1
        }),
        after.persistence@[j] > persistence_min ==> after.masking_map@[j] == after.raw@[j],
        after.persistence@[j] <= persistence_min ==> after.masking_map@[j] == nothing(),
{
}

/// Half the critical band is at least 2 and at most 40 bins, and between these as given.
pub proof fn law_half_windows_are_held(half: usize)
    ensures
        2 <= held_half(half) <= 40,
        2 <= half <= 40 ==> held_half(half) == half,
        half < 2 ==> held_half(half) == 2,
        half > 40 ==> held_half(half) == 40,
{
}

/// A count of frames never moves by more than one, and rises exactly for a hit below its cap.
pub proof fn law_counts_move_by_one(count: u32, hit: bool)
    requires
        count <= 40,
    ensures
        hit && count < 40 ==> persisted(count, hit) == count + 1,
        hit && count == 40 ==> persisted(count, hit) == 40,
        !hit && count > 0 ==> persisted(count, hit) == count - 1,
        !hit && count == 0 ==> persisted(count, hit) == 0,
{
}

proof fn lemma_bins_above(map: Seq<Level>, floor: Level, n: nat)
    requires
        n <= map.len() <= usize::MAX,
    ensures
        ({
            let f = bins_above(map, floor, n);
            &&& forall|i: int|
                0 <= i < f.len() ==> {
                    let p = #[trigger] f[i];
                    p.0 < n && p.1 == map[p.0 as int] && p.1.above(floor)
                }
            &&& forall|k: int|
                0 <= k < n && (#[trigger] map[k]).above(floor) ==> f.contains((k as usize, map[k]))
            &&& forall|i: int, j: int|
                0 <= i < j < f.len() ==> (#[trigger] f[i]).0 < (#[trigger] f[j]).0
        }),
    decreases n,
{
    if n > 0 {
        lemma_bins_above(map, floor, (n - 1) as nat);
        let before = bins_above(map, floor, (n - 1) as nat);
        let f = bins_above(map, floor, n);
        assert forall|i: int| 0 <= i < f.len() implies {
            let p = #[trigger] f[i];
            p.0 < n && p.1 == map[p.0 as int] && p.1.above(floor)
        } by {
            if i < before.len() {
                assert(f[i] == before[i]);
            }
        }
        assert forall|k: int| 0 <= k < n && (#[trigger] map[k]).above(floor) implies f.contains(
            (k as usize, map[k]),
        ) by {
            let x = (k as usize, map[k]);
            if k == n - 1 {
                assert(f.last() == x);
            } else {
                assert(before.contains(x));
                let w = choose|w: int| 0 <= w < before.len() && before[w] == x;
                assert(f[w] == x);
            }
        }
        assert forall|i: int, j: int| 0 <= i < j < f.len() implies (#[trigger] f[i]).0 < (
        #[trigger] f[j]).0 by {
            assert(f[i] == before[i]);
            if j < before.len() {
                assert(f[j] == before[j]);
            }
        }
    }
}

/// The loudest bins of a map are above the floor, come by falling level and equal ones by rising
/// bin, and no louder bin is left out while there is room.
pub proof fn law_top_bins_are_the_loudest(
    map: Seq<Level>,
    floor: Level,
    order: Seq<usize>,
    limit: nat,
    k: int,
)
    requires
        map.len() <= usize::MAX,
        ranking(peak_levels(map, floor), order),
    ensures
        ({
            let r = picked(bins_above(map, floor, map.len()), order, limit);
            &&& r.len() <= limit
            &&& forall|i: int|
                0 <= i < r.len() ==> {
                    let p = #[trigger] r[i];
                    p.0 < map.len() && p.1 == map[p.0 as int] && map[p.0 as int].above(floor)
                }
            &&& forall|i: int, j: int|
                0 <= i < j < r.len() ==> (#[trigger] r[i]).1.above((#[trigger] r[j]).1) || (
                r[i].1.same(r[j].1) && r[i].0 < r[j].0)
            &&& 0 <= k < map.len() && map[k].above(floor) ==> r.contains((k as usize, map[k])) || (
            r.len() == limit && forall|i: int|
                0 <= i < r.len() ==> (#[trigger] r[i]).1.at_least(map[k]))
        }),
{
    let f = bins_above(map, floor, map.len());
    let r = picked(f, order, limit);
    lemma_bins_above(map, floor, map.len());
    assert forall|i: int| 0 <= i < r.len() implies {
        let p = #[trigger] r[i];
        p.0 < map.len() && p.1 == map[p.0 as int] && map[p.0 as int].above(floor)
    } by {
        assert(r[i] == f[order[i] as int]);
    }
    assert forall|i: int, j: int| 0 <= i < j < r.len() implies (#[trigger] r[i]).1.above(
        (#[trigger] r[j]).1,
    ) || (r[i].1.same(r[j].1) && r[i].0 < r[j].0) by {
        let a = order[i] as int;
        let b = order[j] as int;
        assert(r[i] == f[a] && r[j] == f[b]);
        assert(peak_levels(map, floor)[a] == f[a].1 && peak_levels(map, floor)[b] == f[b].1);
        assert(!f[a].1.nan() && !f[b].1.nan());
    }
    if 0 <= k < map.len() && map[k].above(floor) {
        let x = (k as usize, map[k]);
        let w = choose|w: int| 0 <= w < f.len() && f[w] == x;
        assert(ranked_at(order, w));
        let p = choose|p: int| 0 <= p < order.len() && #[trigger] order[p] == w;
        if p < limit {
            assert(r[p] == x);
        } else {
            assert forall|i: int| 0 <= i < r.len() implies (#[trigger] r[i]).1.at_least(map[k]) by {
                let a = order[i] as int;
                assert(r[i] == f[a]);
                assert(peak_levels(map, floor)[a] == f[a].1 && peak_levels(map, floor)[w]
                    == f[w].1);
                assert(order[p] == w);
                assert(!f[a].1.nan() && !f[w].1.nan());
            }
        }
    }
}

/// Whether a level and names are those of the collision at a bin: of two of the tracks heard there,
/// `x` and `y`, whose quieter one no other pair exceeds, or none.
pub open spec fn collides(
    own: Option<Seq<Level>>,
    relays: Seq<(String, Vec<Level>)>,
    floor: Level,
    j: int,
    level: Level,
    names: Seq<String>,
    tracks: Seq<int>,
    x: int,
    y: int,
) -> bool {
    &&& tracks_heard(own, relays, floor, j, tracks)
    &&& forall|a: int, b: int, m: Level|
        0 <= a < b < tracks.len() && #[trigger] quieter(
            track_level(own, relays, tracks[a], j),
            track_level(own, relays, tracks[b], j),
            m,
        ) ==> !m.above(level)
    &&& if 0 <= x < y < tracks.len() {
        &&& quieter(
            track_level(own, relays, tracks[x], j),
            track_level(own, relays, tracks[y], j),
            level,
        )
        &&& level.above(nothing())
        &&& names.len() == 2
        &&& names[0]@ == track_name(relays, tracks[x])
        &&& names[1]@ == track_name(relays, tracks[y])
    } else {
        level == nothing() && names.len() == 0
    }
}

/// Whether a bin spreads its collision to another, at most `half` bins away.
pub open spec fn spreads(a: MaskingAnalyzer, half: int, j: int, from: int) -> bool {
    &&& 0 <= from < a.scratch@.len()
    &&& -half <= from - j <= half
    &&& a.masking_contributors@[j]@ == a.scratch_contributors@[from]@
    &&& a.scratch@[from].above(nothing()) ==> a.raw@[j] == a.scratch@[from]
    &&& !a.scratch@[from].above(nothing()) ==> a.raw@[j] == nothing()
    &&& forall|i: int|
        0 <= i < a.scratch@.len() && -half <= i - j <= half ==> !(#[trigger] a.scratch@[i]).above(
            a.raw@[j],
        )
}

/// What a frame shows at each bin: the two tracks that collide there by name, the level of the
/// quieter of them, the loudest collision around with its names, and that only once it lasts.
pub proof fn law_a_frame_names_and_shows_its_collisions(
    a: &mut MaskingAnalyzer,
    own: Option<&Vec<Level>>,
    relays: &Vec<(String, Vec<Level>)>,
    floor: Level,
    halves: &Vec<usize>,
    persistence_min: u32,
    u: (),
    j: int,
)
    requires
        old(a).wf(),
        halves@.len() == old(a).masking_map@.len(),
        relays@.len() <= usize::MAX,
        call_ensures(
            MaskingAnalyzer::compute_masking,
            (a, own, relays, floor, halves, persistence_min),
            u,
        ),
        0 <= j < old(a).masking_map@.len(),
    ensures
        exists|tracks: Seq<int>, x: int, y: int| #[trigger]
            collides(
                own_seq(own),
                relays@,
                floor,
                j,
                final(a).scratch@[j],
                final(a).scratch_contributors@[j]@,
                tracks,
                x,
                y,
            ),
        exists|from: int, half: int| #[trigger]
            spreads(*final(a), half, j, from) && 2 <= half <= 40 && (2 <= halves@[j] <= 40 ==> half
                == halves@[j]),
        final(a).raw@[j].above(floor) ==> final(a).persistence@[j] == (if old(a).persistence@[j]
            == 40 {
            40
        } else {
            old(a).persistence@[j] + 1
        }),
        !final(a).raw@[j].above(floor) ==> final(a).persistence@[j] == (if old(a).persistence@[j]
            == 0 {
            0
        } else {
            old(a).persistence@[j] - 1
        }),
        final(a).persistence@[j] > persistence_min ==> final(a).masking_map@[j] == final(a).raw@[j],
        final(a).persistence@[j] <= persistence_min ==> final(a).masking_map@[j] == nothing(),
{
    let o = own_seq(own);
    let h = held_half(halves@[j]);
    assert(own_view(own) == o);
    assert(masked_at(
        *old(a),
        *final(a),
        own_view(own),
        relays@,
        floor,
        held_half(halves@[j]),
        persistence_min,
        j,
    ));
    law_half_windows_are_held(halves@[j]);
    assert(old(a).persistence@[j] <= 40);
    let (tracks, x, y) = law_a_collision_is_named_after_its_two_tracks(
        *old(a),
        *final(a),
        o,
        relays@,
        floor,
        h,
        persistence_min,
        j,
    );
    assert(collides(
        o,
        relays@,
        floor,
        j,
        final(a).scratch@[j],
        final(a).scratch_contributors@[j]@,
        tracks,
        x,
        y,
    ));
    let from = law_a_collision_is_spread_around(
        *old(a),
        *final(a),
        o,
        relays@,
        floor,
        h,
        persistence_min,
        j,
    );
    assert(spreads(*final(a), h, j, from));
    law_a_collision_counts_its_frames(
        *old(a),
        *final(a),
        o,
        relays@,
        floor,
        h,
        persistence_min,
        j,
    );
}

/// The levels of the own signal, where it takes part.
pub open spec fn own_seq(own: Option<&Vec<Level>>) -> Option<Seq<Level>> {
    match own {
        Some(v) => Some(v@),
        None => None,
    }
}

/// The loudest bins of the map, with their own names: above the floor, by falling level, at most as
/// many as asked for, and no louder bin is left out while there is room.
pub proof fn law_the_loudest_collisions_are_listed(
    a: &MaskingAnalyzer,
    n: usize,
    floor: Level,
    r: Vec<(usize, Level, Vec<String>)>,
    i: int,
    j: int,
    k: int,
)
    requires
        a.wf(),
        a.masking_map@.len() <= usize::MAX,
        call_ensures(MaskingAnalyzer::top_peaks, (a, n, floor), r),
        0 <= i < j < r@.len(),
        0 <= k < a.masking_map@.len(),
        a.masking_map@[k].above(floor),
    ensures
        r@.len() <= n,
        r@[i].0 < a.masking_map@.len(),
        r@[i].1 == a.masking_map@[r@[i].0 as int],
        r@[i].1.above(floor),
        r@[i].2@ == a.masking_contributors@[r@[i].0 as int]@,
        r@[j].1.above(floor),
        r@[i].1.above(r@[j].1) || (r@[i].1.same(r@[j].1) && r@[i].0 < r@[j].0),
        (exists|m: int| 0 <= m < r@.len() && (#[trigger] r@[m]).0 == k) || (r@.len() == n
            && r@[i].1.at_least(a.masking_map@[k])),
{
    let map = a.masking_map@;
    let order = choose|order: Seq<usize>|
        #![trigger ranking(peak_levels(map, floor), order)]
        ranking(peak_levels(map, floor), order) && peak_values(r@) == picked(
            bins_above(map, floor, map.len()),
            order,
            n as nat,
        );
    law_top_bins_are_the_loudest(map, floor, order, n as nat, k);
    let v = peak_values(r@);
    assert(v.len() == r@.len());
    assert(v[i] == (r@[i].0, r@[i].1));
    assert(v[j] == (r@[j].0, r@[j].1));
    if v.contains((k as usize, map[k])) {
        let m = choose|m: int| 0 <= m < v.len() && v[m] == (k as usize, map[k]);
        assert(v[m] == (r@[m].0, r@[m].1));
        assert(r@[m].0 == k);
    }
}

/// An analyzer that has heard nothing shows nothing.
pub proof fn law_a_new_analyzer_shows_nothing(a: MaskingAnalyzer, j: int)
    requires
        call_ensures(MaskingAnalyzer::new, (), a),
        0 <= j < 1024,
    ensures
        a.masking_map@.len() == 1024,
        a.masking_map@[j].bits == 0xc2b4_0000,
        a.raw@[j].bits == 0xc2b4_0000,
        a.persistence@[j] == 0,
        a.masking_contributors@[j]@.len() == 0,
{
    assert(crate::masking::unmasked(a));
}

} // verus!
