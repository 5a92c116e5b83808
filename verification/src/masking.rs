//! Masking: where two sources are loud at the same frequency.

use crate::level::{Level, SILENCE_BITS};
use crate::rank::{order_desc, picked, ranking};
use crate::text::texts;
use vstd::prelude::*;
use vstd::string::*;

verus! {

/// How many bins a spectrum has.
pub const SPECTRUM_BINS: usize = 1024;

/// How many sources are compared at one bin: the own signal and sixteen relays.
pub const MAX_SOURCES: usize = 17;

/// How far persistence can rise.
pub const PERSIST_CAP: u32 = 40;

/// A source that is heard at a bin: its level, and which relay it is (`None`: the own signal).
pub type Source = (Level, Option<usize>);

/// The level of silence.
pub open spec fn silence() -> Level {
    Level { bits: SILENCE_BITS }
}

/// The own signal at a bin, where it takes part and is above the floor.
pub open spec fn own_source(own: Option<Seq<Level>>, floor: Level, j: int) -> Seq<Source> {
    match own {
        Some(spectrum) => {
            let v = if j < spectrum.len() {
                spectrum[j]
            } else {
                silence()
            };
            if v.above(floor) {
                seq![(v, None)]
            } else {
                Seq::empty()
            }
        },
        None => Seq::empty(),
    }
}

/// The relays among the first `n` that are above the floor at a bin.
pub open spec fn relay_sources(
    spectra: Seq<Seq<Level>>,
    floor: Level,
    j: int,
    n: nat,
) -> Seq<Source>
    decreases n,
{
    if n == 0 {
        Seq::empty()
    } else {
        let i = (n - 1) as nat;
        let before = relay_sources(spectra, floor, j, i);
        let s = spectra[i as int];
        if j < s.len() && s[j].above(floor) {
            before.push((s[j], Some(i as usize)))
        } else {
            before
        }
    }
}

/// The first sources of a list, as many as are compared.
pub open spec fn compared(all: Seq<Source>) -> Seq<Source> {
    if all.len() > MAX_SOURCES {
        all.take(MAX_SOURCES as int)
    } else {
        all
    }
}

/// The sources that are compared at a bin.
pub open spec fn sources_at(
    own: Option<Seq<Level>>,
    spectra: Seq<Seq<Level>>,
    floor: Level,
    j: int,
) -> Seq<Source> {
    compared(own_source(own, floor, j) + relay_sources(spectra, floor, j, spectra.len()))
}

/// How loud two sources collide: as loud as the quieter of them.
pub open spec fn collision(s: Seq<Source>, pair: (int, int)) -> Level {
    s[pair.0].0.smaller(s[pair.1].0)
}

/// The loudest level so far: that of the pair found, or silence.
pub open spec fn found_level(s: Seq<Source>, found: Option<(int, int)>) -> Level {
    match found {
        Some(pair) => collision(s, pair),
        None => silence(),
    }
}

/// The louder of what was found and one more pair; what was found first stays.
pub open spec fn louder(s: Seq<Source>, found: Option<(int, int)>, pair: (int, int)) -> Option<
    (int, int),
> {
    if collision(s, pair).above(found_level(s, found)) {
        Some(pair)
    } else {
        found
    }
}

/// What is found after the pairs of `a` with the sources behind it up to `b`.
pub open spec fn row_scan(s: Seq<Source>, found: Option<(int, int)>, a: int, b: int) -> Option<
    (int, int),
>
    decreases b,
{
    if b <= a + 1 || b <= 0 {
        found
    } else {
        louder(s, row_scan(s, found, a, b - 1), (a, b - 1))
    }
}

/// What is found after all pairs whose first source is among the first `n`.
pub open spec fn pair_scan(s: Seq<Source>, n: int) -> Option<(int, int)>
    decreases n,
{
    if n <= 0 {
        None
    } else {
        row_scan(s, pair_scan(s, n - 1), n - 1, s.len() as int)
    }
}

/// The first of the loudest pairs of sources that collide above silence.
pub open spec fn loudest_pair(s: Seq<Source>) -> Option<(int, int)> {
    pair_scan(s, s.len() as int)
}

/// The name of a source.
pub open spec fn source_name(relays: Seq<(String, Vec<Level>)>, source: Source) -> Seq<char> {
    match source.1 {
        Some(i) => relays[i as int].0@,
        None => "Own"@,
    }
}

/// The names of a pair of sources.
pub open spec fn pair_names(
    relays: Seq<(String, Vec<Level>)>,
    s: Seq<Source>,
    found: Option<(int, int)>,
) -> Seq<Seq<char>> {
    match found {
        Some(pair) => seq![source_name(relays, s[pair.0]), source_name(relays, s[pair.1])],
        None => Seq::empty(),
    }
}

/// The spectra of named relays.
pub open spec fn spectra_of(relays: Seq<(String, Vec<Level>)>) -> Seq<Seq<Level>> {
    relays.map_values(|r: (String, Vec<Level>)| r.1@)
}

/// The spectra of relays.
pub open spec fn bare_spectra(relays: Seq<Vec<Level>>) -> Seq<Seq<Level>> {
    relays.map_values(|r: Vec<Level>| r@)
}

/// The own spectrum, where it takes part.
pub open spec fn own_view(own: Option<&Vec<Level>>) -> Option<Seq<Level>> {
    match own {
        Some(v) => Some(v@),
        None => None,
    }
}

/// The own signal at a bin, where it takes part and is above the floor.
fn find_own(own: Option<&Vec<Level>>, floor: Level, j: usize) -> (r: Vec<Source>)
    ensures
        r@ == own_source(own_view(own), floor, j as int),
{
    let mut r: Vec<Source> = Vec::new();
    if let Some(spectrum) = own {
        let v: Level = if j < spectrum.len() {
            spectrum[j]
        } else {
            Level::silence()
        };
        if v.gt(floor) {
            r.push((v, None));
        }
    }
    r
}

/// One more relay at a bin, where it is above the floor and there is room for it.
fn add_relay(found: &mut Vec<Source>, spectrum: &Vec<Level>, floor: Level, i: usize, j: usize)
    requires
        old(found).len() <= MAX_SOURCES,
    ensures
        final(found)@ == if j < spectrum.len() && spectrum@[j as int].above(floor) && old(found).len()
            < MAX_SOURCES {
            old(found)@.push((spectrum@[j as int], Some(i)))
        } else {
            old(found)@
        },
{
    if j < spectrum.len() && spectrum[j].gt(floor) && found.len() < MAX_SOURCES {
        found.push((spectrum[j], Some(i)));
    }
}

proof fn lemma_compared_push(all: Seq<Source>, x: Source)
    ensures
        compared(all.push(x)) == if compared(all).len() < MAX_SOURCES {
            compared(all).push(x)
        } else {
            compared(all)
        },
{
    if all.len() >= MAX_SOURCES {
        assert(all.push(x).take(MAX_SOURCES as int) == all.take(MAX_SOURCES as int));
        assert(all.take(all.len() as int) == all);
    }
}

proof fn lemma_relay_step(
    own: Seq<Source>,
    spectra: Seq<Seq<Level>>,
    floor: Level,
    j: int,
    i: nat,
)
    requires
        i < spectra.len(),
    ensures
        ({
            let now = compared(own + relay_sources(spectra, floor, j, i));
            let s = spectra[i as int];
            compared(own + relay_sources(spectra, floor, j, i + 1)) == if j < s.len()
                && s[j].above(floor) && now.len() < MAX_SOURCES {
                now.push((s[j], Some(i as usize)))
            } else {
                now
            }
        }),
{
    let s = spectra[i as int];
    let before = relay_sources(spectra, floor, j, i);
    if j < s.len() && s[j].above(floor) {
        let x: Source = (s[j], Some(i as usize));
        assert(own + before.push(x) == (own + before).push(x));
        lemma_compared_push(own + before, x);
    }
}

/// The sources that are compared at a bin, with named relays.
fn named_sources(
    own: Option<&Vec<Level>>,
    relays: &Vec<(String, Vec<Level>)>,
    floor: Level,
    j: usize,
) -> (r: Vec<Source>)
    ensures
        r@ == sources_at(own_view(own), spectra_of(relays@), floor, j as int),
        r.len() <= MAX_SOURCES,
{
    let mut found: Vec<Source> = find_own(own, floor, j);
    let ghost first = found@;
    let ghost spectra = spectra_of(relays@);
    proof {
        assert(first + relay_sources(spectra, floor, j as int, 0) == first);
    }
    for i in 0..relays.len()
        invariant
            spectra == spectra_of(relays@),
            found@ == compared(first + relay_sources(spectra, floor, j as int, i as nat)),
            found.len() <= MAX_SOURCES,
    {
        proof {
            assert(spectra[i as int] == relays@[i as int].1@);
            lemma_relay_step(first, spectra, floor, j as int, i as nat);
        }
        add_relay(&mut found, &relays[i].1, floor, i, j);
    }
    found
}

/// The sources that are compared at a bin, with nameless relays.
pub fn bare_sources(
    own: Option<&Vec<Level>>,
    relays: &Vec<Vec<Level>>,
    floor: Level,
    j: usize,
) -> (r: Vec<Source>)
    ensures
        r@ == sources_at(own_view(own), bare_spectra(relays@), floor, j as int),
        r.len() <= MAX_SOURCES,
{
    let mut found: Vec<Source> = find_own(own, floor, j);
    let ghost first = found@;
    let ghost spectra = bare_spectra(relays@);
    proof {
        assert(first + relay_sources(spectra, floor, j as int, 0) == first);
    }
    for i in 0..relays.len()
        invariant
            spectra == bare_spectra(relays@),
            found@ == compared(first + relay_sources(spectra, floor, j as int, i as nat)),
            found.len() <= MAX_SOURCES,
    {
        proof {
            assert(spectra[i as int] == relays@[i as int]@);
            lemma_relay_step(first, spectra, floor, j as int, i as nat);
        }
        add_relay(&mut found, &relays[i], floor, i, j);
    }
    found
}

/// A pair of positions as integers.
pub open spec fn pair_view(pair: Option<(usize, usize)>) -> Option<(int, int)> {
    match pair {
        Some(p) => Some((p.0 as int, p.1 as int)),
        None => None,
    }
}

/// Whether a pair names two positions below `n` in order.
pub open spec fn ordered(pair: Option<(usize, usize)>, n: int) -> bool {
    match pair {
        Some((a, b)) => a < b && b < n,
        None => true,
    }
}

/// The first of the loudest pairs of sources that collide above silence, and how loud.
pub fn find_loudest_pair(s: &Vec<Source>) -> (r: (Option<(usize, usize)>, Level))
    ensures
        pair_view(r.0) == loudest_pair(s@),
        r.1 == found_level(s@, loudest_pair(s@)),
        ordered(r.0, s.len() as int),
{
    let mut found: Option<(usize, usize)> = None;
    let mut best: Level = Level::silence();
    for a in 0..s.len()
        invariant
            pair_view(found) == pair_scan(s@, a as int),
            best == found_level(s@, pair_view(found)),
            ordered(found, s.len() as int),
    {
        let ghost start = pair_view(found);
        for b in a + 1..s.len()
            invariant
                a < s.len(),
                pair_view(found) == row_scan(s@, start, a as int, b as int),
                best == found_level(s@, pair_view(found)),
                ordered(found, s.len() as int),
        {
            let level: Level = s[a].0.min(s[b].0);
            if level.gt(best) {
                best = level;
                found = Some((a, b));
            }
        }
        proof {
            assert(a + 1 >= s.len() ==> row_scan(s@, start, a as int, s.len() as int) == start);
        }
    }
    (found, best)
}

/// The first of the loudest levels above silence at the positions `lo` up to `hi`.
pub open spec fn loudest_in(levels: Seq<Level>, lo: int, hi: int) -> Option<int>
    decreases hi - lo,
{
    if hi <= lo {
        None
    } else {
        let before = loudest_in(levels, lo, hi - 1);
        let best = match before {
            Some(k) => levels[k],
            None => silence(),
        };
        if levels[hi - 1].above(best) {
            Some(hi - 1)
        } else {
            before
        }
    }
}

/// The first position of the window around a bin.
pub open spec fn window_lo(j: int, half: int) -> int {
    if j < half {
        0
    } else {
        j - half
    }
}

/// The position behind the window around a bin.
pub open spec fn window_hi(j: int, half: int, n: int) -> int {
    if j + half >= n {
        n
    } else {
        j + half + 1
    }
}

/// Where the loudest level in the window around a bin is.
pub open spec fn spread_from(levels: Seq<Level>, j: int, half: int) -> Option<int> {
    loudest_in(levels, window_lo(j, half), window_hi(j, half, levels.len() as int))
}

/// The loudest level in the window around a bin, or silence.
pub open spec fn spread_level(levels: Seq<Level>, j: int, half: int) -> Level {
    match spread_from(levels, j, half) {
        Some(k) => levels[k],
        None => silence(),
    }
}

/// Half the width of the critical band, held between 2 and 40 bins.
pub open spec fn held_half(half: usize) -> int {
    if half < 2 {
        2
    } else if half > 40 {
        40
    } else {
        half as int
    }
}

/// Half the width of the critical band, held between 2 and 40 bins.
pub fn hold_half(half: usize) -> (r: usize)
    ensures
        r == held_half(half),
{
    if half < 2 {
        2
    } else if half > 40 {
        40
    } else {
        half
    }
}

/// Where the loudest level in the window around a bin is.
pub fn find_spread(levels: &Vec<Level>, j: usize, half: usize) -> (r: Option<usize>)
    requires
        j < levels.len(),
    ensures
        match spread_from(levels@, j as int, half as int) {
            Some(k) => r is Some && r->0 == k && k < levels.len(),
            None => r is None,
        },
{
    let lo: usize = if j < half {
        0
    } else {
        j - half
    };
    let hi: usize = if half >= levels.len() - j {
        levels.len()
    } else {
        j + half + 1
    };
    let mut r: Option<usize> = None;
    let mut best: Level = Level::silence();
    for k in lo..hi
        invariant
            lo <= j < hi <= levels.len(),
            match loudest_in(levels@, lo as int, k as int) {
                Some(i) => r == Some(i as usize) && lo <= i < k && best == levels@[i],
                None => r is None && best == silence(),
            },
    {
        if levels[k].gt(best) {
            best = levels[k];
            r = Some(k);
        }
    }
    r
}

/// Persistence one frame later: it rises while a bin is hit and falls while it is not.
pub open spec fn persisted(before: u32, hit: bool) -> u32 {
    if hit {
        if before + 1 < PERSIST_CAP {
            (before + 1) as u32
        } else {
            PERSIST_CAP
        }
    } else if before > 0 {
        (before - 1) as u32
    } else {
        0
    }
}

/// Persistence one frame later.
pub fn persist(before: u32, hit: bool) -> (r: u32)
    requires
        before <= PERSIST_CAP,
    ensures
        r == persisted(before, hit),
        r <= PERSIST_CAP,
{
    if hit {
        if before + 1 < PERSIST_CAP {
            before + 1
        } else {
            PERSIST_CAP
        }
    } else if before > 0 {
        before - 1
    } else {
        0
    }
}

/// The masking of one instance, bin by bin.
pub struct MaskingAnalyzer {
    /// The collision level, once it has persisted.
    pub masking_map: Vec<Level>,
    /// The collision level of this frame, spread over the critical band.
    pub raw: Vec<Level>,
    pub persistence: Vec<u32>,
    /// The collision level of this frame at the bin itself.
    pub scratch: Vec<Level>,
    /// The names of the two sources that collide at the bin itself.
    pub scratch_contributors: Vec<Vec<String>>,
    /// The names of the two sources behind the spread level.
    pub masking_contributors: Vec<Vec<String>>,
}

/// A list of as many empty lists as given.
fn empty_lists(n: usize) -> (r: Vec<Vec<String>>)
    ensures
        r.len() == n,
        forall|i: int| 0 <= i < n ==> (#[trigger] r@[i])@.len() == 0,
{
    let mut r: Vec<Vec<String>> = Vec::new();
    for i in 0..n
        invariant
            r.len() == i,
            forall|k: int| 0 <= k < i ==> (#[trigger] r@[k])@.len() == 0,
    {
        r.push(Vec::new());
    }
    r
}

/// A copy of a list of names.
pub fn copy_names(v: &Vec<String>) -> (r: Vec<String>)
    ensures
        r@ == v@,
{
    let mut r: Vec<String> = Vec::new();
    for i in 0..v.len()
        invariant
            r@ == v@.take(i as int),
    {
        r.push(v[i].clone());
        proof {
            assert(v@.take(i as int + 1) == v@.take(i as int).push(v@[i as int]));
        }
    }
    proof {
        assert(v@.take(v@.len() as int) == v@);
    }
    r
}

/// The name of a source.
fn name_of(relays: &Vec<(String, Vec<Level>)>, source: Source) -> (r: String)
    requires
        source.1 is Some ==> source.1->0 < relays.len(),
    ensures
        r@ == source_name(relays@, source),
{
    match source.1 {
        Some(i) => relays[i].0.clone(),
        None => "Own".to_owned(),
    }
}

proof fn lemma_relay_numbers(spectra: Seq<Seq<Level>>, floor: Level, j: int, n: nat)
    requires
        n <= spectra.len(),
        spectra.len() <= usize::MAX,
    ensures
        forall|k: int|
            0 <= k < relay_sources(spectra, floor, j, n).len() ==> {
                let x = #[trigger] relay_sources(spectra, floor, j, n)[k];
                x.1 is Some && x.1->0 < n
            },
    decreases n,
{
    if n > 0 {
        lemma_relay_numbers(spectra, floor, j, (n - 1) as nat);
    }
}

/// The sources at a bin are the own signal and relays that exist.
proof fn lemma_source_numbers(own: Option<Seq<Level>>, spectra: Seq<Seq<Level>>, floor: Level, j: int)
    requires
        spectra.len() <= usize::MAX,
    ensures
        forall|k: int|
            0 <= k < sources_at(own, spectra, floor, j).len() ==> {
                let x = #[trigger] sources_at(own, spectra, floor, j)[k];
                x.1 is Some ==> x.1->0 < spectra.len()
            },
{
    lemma_relay_numbers(spectra, floor, j, spectra.len());
    let first = own_source(own, floor, j);
    let rest = relay_sources(spectra, floor, j, spectra.len());
    let s = sources_at(own, spectra, floor, j);
    assert forall|k: int| 0 <= k < s.len() implies {
        let x = #[trigger] s[k];
        x.1 is Some ==> x.1->0 < spectra.len()
    } by {
        assert(s[k] == (first + rest)[k]);
        if k >= first.len() {
            assert((first + rest)[k] == rest[k - first.len()]);
        }
    }
}

/// Whether an analyzer has heard nothing.
pub open spec fn unmasked(a: MaskingAnalyzer) -> bool {
    &&& a.masking_map@ == Seq::new(SPECTRUM_BINS as nat, |j: int| silence())
    &&& a.raw@ == Seq::new(SPECTRUM_BINS as nat, |j: int| silence())
    &&& a.scratch@ == Seq::new(SPECTRUM_BINS as nat, |j: int| silence())
    &&& a.persistence@ == Seq::new(SPECTRUM_BINS as nat, |j: int| 0u32)
    &&& forall|j: int|
        0 <= j < SPECTRUM_BINS ==> (#[trigger] a.scratch_contributors@[j])@.len() == 0
    &&& forall|j: int|
        0 <= j < SPECTRUM_BINS ==> (#[trigger] a.masking_contributors@[j])@.len() == 0
}

impl MaskingAnalyzer {
    /// Every list covers all bins, and persistence keeps below its cap.
    pub open spec fn wf(&self) -> bool {
        let n = self.masking_map@.len();
        &&& self.raw@.len() == n
        &&& self.persistence@.len() == n
        &&& self.scratch@.len() == n
        &&& self.scratch_contributors@.len() == n
        &&& self.masking_contributors@.len() == n
        &&& forall|j: int| 0 <= j < n ==> #[trigger] self.persistence@[j] <= PERSIST_CAP
    }

    /// An analyzer that has heard nothing.
    pub fn new() -> (r: MaskingAnalyzer)
        ensures
            r.wf(),
            unmasked(r),
    {
        let r: MaskingAnalyzer = MaskingAnalyzer {
            masking_map: vec![Level::silence(); SPECTRUM_BINS],
            raw: vec![Level::silence(); SPECTRUM_BINS],
            persistence: vec![0u32; SPECTRUM_BINS],
            scratch: vec![Level::silence(); SPECTRUM_BINS],
            scratch_contributors: empty_lists(SPECTRUM_BINS),
            masking_contributors: empty_lists(SPECTRUM_BINS),
        };
        proof {
            assert(r.masking_map@ =~= Seq::new(SPECTRUM_BINS as nat, |j: int| silence()));
            assert(r.raw@ =~= Seq::new(SPECTRUM_BINS as nat, |j: int| silence()));
            assert(r.scratch@ =~= Seq::new(SPECTRUM_BINS as nat, |j: int| silence()));
            assert(r.persistence@ =~= Seq::new(SPECTRUM_BINS as nat, |j: int| 0u32));
        }
        r
    }

    /// Where the first loudest sources collide at each bin.
    fn collide(
        &mut self,
        own: Option<&Vec<Level>>,
        relays: &Vec<(String, Vec<Level>)>,
        floor: Level,
    )
        requires
            old(self).wf(),
        ensures
            final(self).wf(),
            final(self).masking_map == old(self).masking_map,
            final(self).raw == old(self).raw,
            final(self).persistence == old(self).persistence,
            final(self).masking_contributors == old(self).masking_contributors,
            forall|j: int|
                #![trigger final(self).scratch@[j]]
                #![trigger final(self).scratch_contributors@[j]]
                0 <= j < old(self).masking_map@.len() ==> {
                    let s = sources_at(own_view(own), spectra_of(relays@), floor, j);
                    &&& final(self).scratch@[j] == found_level(s, loudest_pair(s))
                    &&& texts(final(self).scratch_contributors@[j]@) == pair_names(
                        relays@,
                        s,
                        loudest_pair(s),
                    )
                },
    {
        let n: usize = self.masking_map.len();
        for j in 0..n
            invariant
                n == self.masking_map.len(),
                self.wf(),
                self.masking_map == old(self).masking_map,
                self.raw == old(self).raw,
                self.persistence == old(self).persistence,
                self.masking_contributors == old(self).masking_contributors,
                forall|k: int|
                    #![trigger self.scratch@[k]]
                    #![trigger self.scratch_contributors@[k]]
                    0 <= k < j ==> {
                        let s = sources_at(own_view(own), spectra_of(relays@), floor, k);
                        &&& self.scratch@[k] == found_level(s, loudest_pair(s))
                        &&& texts(self.scratch_contributors@[k]@) == pair_names(
                            relays@,
                            s,
                            loudest_pair(s),
                        )
                    },
        {
            let s: Vec<Source> = named_sources(own, relays, floor, j);
            let (pair, best) = find_loudest_pair(&s);
            proof {
                assert(spectra_of(relays@).len() == relays.len());
                lemma_source_numbers(own_view(own), spectra_of(relays@), floor, j as int);
            }
            let mut names: Vec<String> = Vec::new();
            if let Some((a, b)) = pair {
                names.push(name_of(relays, s[a]));
                names.push(name_of(relays, s[b]));
            }
            proof {
                assert(texts(names@) =~= pair_names(relays@, s@, loudest_pair(s@)));
            }
            self.scratch[j] = best;
            self.scratch_contributors[j] = names;
        }
    }

    /// Spreads each collision over the critical band around it.
    fn spread(&mut self, half_windows: &Vec<usize>)
        requires
            old(self).wf(),
            half_windows.len() == old(self).masking_map.len(),
        ensures
            final(self).wf(),
            final(self).masking_map == old(self).masking_map,
            final(self).persistence == old(self).persistence,
            final(self).scratch == old(self).scratch,
            final(self).scratch_contributors == old(self).scratch_contributors,
            forall|j: int|
                #![trigger final(self).raw@[j]]
                #![trigger final(self).masking_contributors@[j]]
                0 <= j < old(self).masking_map@.len() ==> {
                    let half = held_half(half_windows@[j]);
                    let from = match spread_from(old(self).scratch@, j, half) {
                        Some(k) => k,
                        None => j,
                    };
                    &&& final(self).raw@[j] == spread_level(old(self).scratch@, j, half)
                    &&& final(self).masking_contributors@[j]@ == old(
                        self,
                    ).scratch_contributors@[from]@
                },
    {
        let n: usize = self.masking_map.len();
        for j in 0..n
            invariant
                n == self.masking_map.len(),
                n == old(self).masking_map.len(),
                half_windows.len() == n,
                self.wf(),
                self.masking_map == old(self).masking_map,
                self.persistence == old(self).persistence,
                self.scratch == old(self).scratch,
                self.scratch_contributors == old(self).scratch_contributors,
                forall|k: int|
                    #![trigger self.raw@[k]]
                    #![trigger self.masking_contributors@[k]]
                    0 <= k < j ==> {
                        let half = held_half(half_windows@[k]);
                        let from = match spread_from(old(self).scratch@, k, half) {
                            Some(i) => i,
                            None => k,
                        };
                        &&& self.raw@[k] == spread_level(old(self).scratch@, k, half)
                        &&& self.masking_contributors@[k]@ == old(
                            self,
                        ).scratch_contributors@[from]@
                    },
        {
            let half: usize = hold_half(half_windows[j]);
            match find_spread(&self.scratch, j, half) {
                Some(k) => {
                    proof {
                        law_spread_is_the_loudest_nearby(
                            self.scratch@,
                            window_lo(j as int, half as int),
                            window_hi(j as int, half as int, n as int),
                        );
                    }
                    self.raw[j] = self.scratch[k];
                    let names: Vec<String> = copy_names(&self.scratch_contributors[k]);
                    self.masking_contributors[j] = names;
                },
                None => {
                    self.raw[j] = Level::silence();
                    let names: Vec<String> = copy_names(&self.scratch_contributors[j]);
                    self.masking_contributors[j] = names;
                },
            }
        }
    }

    /// Lets only what persists through.
    fn gate(&mut self, floor: Level, persistence_min: u32)
        requires
            old(self).wf(),
        ensures
            final(self).wf(),
            final(self).raw == old(self).raw,
            final(self).scratch == old(self).scratch,
            final(self).scratch_contributors == old(self).scratch_contributors,
            final(self).masking_contributors == old(self).masking_contributors,
            final(self).masking_map@.len() == old(self).masking_map@.len(),
            forall|j: int|
                #![trigger final(self).persistence@[j]]
                #![trigger final(self).masking_map@[j]]
                0 <= j < old(self).masking_map@.len() ==> {
                    let p = persisted(
                        old(self).persistence@[j],
                        old(self).raw@[j].above(floor),
                    );
                    &&& final(self).persistence@[j] == p
                    &&& final(self).masking_map@[j] == if p > persistence_min {
                        old(self).raw@[j]
                    } else {
                        silence()
                    }
                },
    {
        let n: usize = self.masking_map.len();
        for j in 0..n
            invariant
                n == self.masking_map.len(),
                n == old(self).masking_map.len(),
                self.wf(),
                self.raw == old(self).raw,
                self.scratch == old(self).scratch,
                self.scratch_contributors == old(self).scratch_contributors,
                self.masking_contributors == old(self).masking_contributors,
                forall|k: int|
                    j <= k < n ==> #[trigger] self.persistence@[k] == old(self).persistence@[k],
                forall|k: int|
                    #![trigger self.persistence@[k]]
                    #![trigger self.masking_map@[k]]
                    0 <= k < j ==> {
                        let p = persisted(
                            old(self).persistence@[k],
                            old(self).raw@[k].above(floor),
                        );
                        &&& self.persistence@[k] == p
                        &&& self.masking_map@[k] == if p > persistence_min {
                            old(self).raw@[k]
                        } else {
                            silence()
                        }
                    },
        {
            let hit: bool = self.raw[j].gt(floor);
            let p: u32 = persist(self.persistence[j], hit);
            self.persistence[j] = p;
            self.masking_map[j] = if p > persistence_min {
                self.raw[j]
            } else {
                Level::silence()
            };
        }
    }

    /// Finds the collisions of one frame.
    ///
    /// The own spectrum takes part where it is given.  `half_windows` holds for each bin half
    /// the width of the critical band in bins.
    pub fn compute_masking(
        &mut self,
        own_spectrum: Option<&Vec<Level>>,
        relay_named: &Vec<(String, Vec<Level>)>,
        floor_db: Level,
        half_windows: &Vec<usize>,
        persistence_min: u32,
    )
        requires
            old(self).wf(),
            half_windows.len() == old(self).masking_map.len(),
        ensures
            final(self).wf(),
            final(self).masking_map@.len() == old(self).masking_map@.len(),
            masked(
                *old(self),
                *final(self),
                own_view(own_spectrum),
                relay_named@,
                floor_db,
                half_windows@,
                persistence_min,
            ),
    {
        self.collide(own_spectrum, relay_named, floor_db);
        let ghost collided = *self;
        self.spread(half_windows);
        let ghost spreaded = *self;
        self.gate(floor_db, persistence_min);
        proof {
            assert forall|j: int| 0 <= j < old(self).masking_map@.len() implies #[trigger] masked_at(
                *old(self),
                *self,
                own_view(own_spectrum),
                relay_named@,
                floor_db,
                held_half(half_windows@[j]),
                persistence_min,
                j,
            ) by {
                assert(collided.scratch@[j] == self.scratch@[j]);
                assert(spreaded.raw@[j] == self.raw@[j]);
                assert(self.persistence@[j] <= PERSIST_CAP);
            }
        }
    }

    /// The loudest bins above the floor, at most `n`, with the names behind them.
    pub fn top_peaks(&self, n: usize, floor_db: Level) -> (r: Vec<(usize, Level, Vec<String>)>)
        requires
            self.wf(),
        ensures
            exists|order: Seq<usize>|
                #![trigger ranking(peak_levels(self.masking_map@, floor_db), order)]
                {
                    &&& ranking(peak_levels(self.masking_map@, floor_db), order)
                    &&& peak_values(r@) == picked(
                        bins_above(self.masking_map@, floor_db, self.masking_map@.len()),
                        order,
                        n as nat,
                    )
                },
            forall|i: int|
                0 <= i < r.len() ==> (#[trigger] r@[i]).0 < self.masking_map@.len() && r@[i].2@
                    == self.masking_contributors@[r@[i].0 as int]@,
    {
        let found: Vec<(usize, Level)> = collect_above(&self.masking_map, floor_db);
        let mut levels: Vec<Level> = Vec::new();
        for i in 0..found.len()
            invariant
                levels@ == found@.take(i as int).map_values(|p: (usize, Level)| p.1),
        {
            levels.push(found[i].1);
            proof {
                assert(levels@ =~= found@.take(i as int + 1).map_values(|p: (usize, Level)| p.1));
            }
        }
        proof {
            assert(found@.take(found@.len() as int) == found@);
            assert(levels@ == peak_levels(self.masking_map@, floor_db));
            assert(self.masking_map@.len() == self.masking_map.len());
            lemma_above_are_numbers(self.masking_map@, floor_db, self.masking_map@.len());
        }
        let order: Vec<usize> = order_desc(&levels);
        let count: usize = if order.len() < n {
            order.len()
        } else {
            n
        };
        let mut r: Vec<(usize, Level, Vec<String>)> = Vec::new();
        for i in 0..count
            invariant
                self.wf(),
                count <= order.len(),
                found@ == bins_above(self.masking_map@, floor_db, self.masking_map@.len()),
                ranking(peak_levels(self.masking_map@, floor_db), order@),
                peak_values(r@) == picked(found@, order@, i as nat),
                forall|k: int|
                    0 <= k < r.len() ==> (#[trigger] r@[k]).0 < self.masking_map@.len() && r@[k].2@
                        == self.masking_contributors@[r@[k].0 as int]@,
        {
            let p: (usize, Level) = found[order[i]];
            proof {
                assert(self.masking_map@.len() == self.masking_map.len());
                lemma_above_are_numbers(self.masking_map@, floor_db, self.masking_map@.len());
            }
            let ghost before = r@;
            r.push((p.0, p.1, copy_names(&self.masking_contributors[p.0])));
            proof {
                assert(peak_values(r@) =~= peak_values(before).push(p));
                assert(peak_values(r@) =~= picked(found@, order@, i as nat + 1));
            }
        }
        proof {
            assert(picked(found@, order@, count as nat) =~= picked(found@, order@, n as nat));
        }
        r
    }
}

/// What one frame does at the bin `j`.
pub open spec fn masked_at(
    before: MaskingAnalyzer,
    after: MaskingAnalyzer,
    own: Option<Seq<Level>>,
    relays: Seq<(String, Vec<Level>)>,
    floor: Level,
    half: int,
    persistence_min: u32,
    j: int,
) -> bool {
    let s = sources_at(own, spectra_of(relays), floor, j);
    let from = match spread_from(after.scratch@, j, half) {
        Some(k) => k,
        None => j,
    };
    &&& after.scratch@[j] == found_level(s, loudest_pair(s))
    &&& texts(after.scratch_contributors@[j]@) == pair_names(relays, s, loudest_pair(s))
    &&& after.raw@[j] == spread_level(after.scratch@, j, half)
    &&& after.masking_contributors@[j]@ == after.scratch_contributors@[from]@
    &&& after.persistence@[j] == persisted(before.persistence@[j], after.raw@[j].above(floor))
    &&& after.masking_map@[j] == if after.persistence@[j] > persistence_min {
        after.raw@[j]
    } else {
        silence()
    }
}

/// What one frame does at every bin.
pub open spec fn masked(
    before: MaskingAnalyzer,
    after: MaskingAnalyzer,
    own: Option<Seq<Level>>,
    relays: Seq<(String, Vec<Level>)>,
    floor: Level,
    half_windows: Seq<usize>,
    persistence_min: u32,
) -> bool {
    forall|j: int|
        0 <= j < before.masking_map@.len() ==> #[trigger] masked_at(
            before,
            after,
            own,
            relays,
            floor,
            held_half(half_windows[j]),
            persistence_min,
            j,
        )
}

/// The bins among the first `n` that are above a floor, with their levels.
pub open spec fn bins_above(map: Seq<Level>, floor: Level, n: nat) -> Seq<(usize, Level)>
    decreases n,
{
    if n == 0 {
        Seq::empty()
    } else {
        let j = (n - 1) as nat;
        let before = bins_above(map, floor, j);
        if map[j as int].above(floor) {
            before.push((j as usize, map[j as int]))
        } else {
            before
        }
    }
}

/// The levels of the bins that are above a floor.
pub open spec fn peak_levels(map: Seq<Level>, floor: Level) -> Seq<Level> {
    bins_above(map, floor, map.len()).map_values(|p: (usize, Level)| p.1)
}

/// Peaks without their names.
pub open spec fn peak_values(peaks: Seq<(usize, Level, Vec<String>)>) -> Seq<(usize, Level)> {
    peaks.map_values(|p: (usize, Level, Vec<String>)| (p.0, p.1))
}

/// What is above a floor is a number, at a bin that exists.
pub proof fn lemma_above_are_numbers(map: Seq<Level>, floor: Level, n: nat)
    requires
        n <= map.len(),
        map.len() <= usize::MAX,
    ensures
        forall|i: int|
            0 <= i < bins_above(map, floor, n).len() ==> {
                let p = #[trigger] bins_above(map, floor, n)[i];
                p.0 < n && !p.1.nan() && p.1 == map[p.0 as int]
            },
    decreases n,
{
    if n > 0 {
        let before = bins_above(map, floor, (n - 1) as nat);
        lemma_above_are_numbers(map, floor, (n - 1) as nat);
        assert forall|i: int| 0 <= i < bins_above(map, floor, n).len() implies {
            let p = #[trigger] bins_above(map, floor, n)[i];
            p.0 < n && !p.1.nan() && p.1 == map[p.0 as int]
        } by {
            if i < before.len() {
                assert(bins_above(map, floor, n)[i] == before[i]);
            }
        }
    }
}

/// The bins that are above the floor, with their levels.
pub fn collect_above(map: &Vec<Level>, floor: Level) -> (r: Vec<(usize, Level)>)
    ensures
        r@ == bins_above(map@, floor, map@.len()),
{
    let mut r: Vec<(usize, Level)> = Vec::new();
    for j in 0..map.len()
        invariant
            r@ == bins_above(map@, floor, j as nat),
    {
        if map[j].gt(floor) {
            r.push((j, map[j]));
        }
    }
    r
}

/// A collision shows only once it has persisted: not yet where persistence was below the threshold.
pub proof fn law_brief_collisions_stay_hidden(
    before: MaskingAnalyzer,
    after: MaskingAnalyzer,
    own: Option<Seq<Level>>,
    relays: Seq<(String, Vec<Level>)>,
    floor: Level,
    half: int,
    persistence_min: u32,
    j: int,
)
    requires
        masked_at(before, after, own, relays, floor, half, persistence_min, j),
        before.persistence@[j] < persistence_min,
    ensures
        after.masking_map@[j] == silence(),
{
}

/// A collision that has persisted up to the threshold and goes on shows at its level.
pub proof fn law_lasting_collisions_show(
    before: MaskingAnalyzer,
    after: MaskingAnalyzer,
    own: Option<Seq<Level>>,
    relays: Seq<(String, Vec<Level>)>,
    floor: Level,
    half: int,
    persistence_min: u32,
    j: int,
)
    requires
        masked_at(before, after, own, relays, floor, half, persistence_min, j),
        persistence_min < PERSIST_CAP,
        before.persistence@[j] >= persistence_min,
        after.raw@[j].above(floor),
    ensures
        after.masking_map@[j] == after.raw@[j],
{
}

/// What was found is a pair in order, louder than silence, and no pair is louder than it.
spec fn scanned(s: Seq<Source>, found: Option<(int, int)>, upto: spec_fn((int, int)) -> bool) -> bool {
    &&& match found {
        Some(p) => 0 <= p.0 < p.1 < s.len() && collision(s, p).above(silence()) && upto(p),
        None => true,
    }
    &&& forall|a: int, b: int|
        #![trigger collision(s, (a, b))]
        0 <= a < b < s.len() && upto((a, b)) ==> !collision(s, (a, b)).above(
            found_level(s, found),
        )
}

proof fn lemma_row_scan(s: Seq<Source>, found: Option<(int, int)>, a: int, b: int)
    requires
        0 <= a < s.len(),
        b <= s.len(),
        scanned(s, found, |p: (int, int)| p.0 < a),
    ensures
        scanned(
            s,
            row_scan(s, found, a, b),
            |p: (int, int)| p.0 < a || (p.0 == a && p.1 < b),
        ),
    decreases b,
{
    let now = |p: (int, int)| p.0 < a || (p.0 == a && p.1 < b);
    if b <= a + 1 || b <= 0 {
        assert forall|x: int, y: int|
            #![trigger collision(s, (x, y))]
            0 <= x < y < s.len() && now((x, y)) implies !collision(s, (x, y)).above(
            found_level(s, found),
        ) by {}
    } else {
        lemma_row_scan(s, found, a, b - 1);
        let prior = row_scan(s, found, a, b - 1);
        let earlier = |p: (int, int)| p.0 < a || (p.0 == a && p.1 < b - 1);
        assert(!found_level(s, prior).nan());
        assert forall|x: int, y: int|
            #![trigger collision(s, (x, y))]
            0 <= x < y < s.len() && now((x, y)) implies !collision(s, (x, y)).above(
            found_level(s, row_scan(s, found, a, b)),
        ) by {
            if !(x == a && y == b - 1) {
                assert(earlier((x, y)));
            }
        }
    }
}

proof fn lemma_pair_scan(s: Seq<Source>, n: int)
    requires
        0 <= n <= s.len(),
    ensures
        scanned(s, pair_scan(s, n), |p: (int, int)| p.0 < n),
    decreases n,
{
    if n > 0 {
        lemma_pair_scan(s, n - 1);
        lemma_row_scan(s, pair_scan(s, n - 1), n - 1, s.len() as int);
        let row = |p: (int, int)| p.0 < n - 1 || (p.0 == n - 1 && p.1 < s.len());
        assert forall|x: int, y: int|
            #![trigger collision(s, (x, y))]
            0 <= x < y < s.len() && x < n implies !collision(s, (x, y)).above(
            found_level(s, pair_scan(s, n)),
        ) by {
            assert(row((x, y)));
        }
    } else {
        assert forall|x: int, y: int|
            #![trigger collision(s, (x, y))]
            0 <= x < y < s.len() && x < n implies !collision(s, (x, y)).above(
            found_level(s, pair_scan(s, n)),
        ) by {}
    }
}

/// No two sources collide louder than the pair that is found, and it is louder than silence.
pub proof fn law_loudest_pair_is_loudest(s: Seq<Source>)
    ensures
        match loudest_pair(s) {
            Some(p) => 0 <= p.0 < p.1 < s.len() && collision(s, p).above(silence()),
            None => true,
        },
        forall|a: int, b: int|
            #![trigger collision(s, (a, b))]
            0 <= a < b < s.len() ==> !collision(s, (a, b)).above(found_level(s, loudest_pair(s))),
{
    lemma_pair_scan(s, s.len() as int);
    let all = |p: (int, int)| p.0 < s.len();
    assert forall|a: int, b: int|
        #![trigger collision(s, (a, b))]
        0 <= a < b < s.len() implies !collision(s, (a, b)).above(
        found_level(s, loudest_pair(s)),
    ) by {
        assert(all((a, b)));
    }
}

/// A source alone masks nothing: without two sources there is no collision.
pub proof fn law_lone_sources_do_not_collide(s: Seq<Source>)
    requires
        s.len() < 2,
    ensures
        loudest_pair(s) is None,
        found_level(s, loudest_pair(s)) == silence(),
{
    law_loudest_pair_is_loudest(s);
}

/// The level spread to a bin is the loudest of its window, and is that of the bin it names.
pub proof fn law_spread_is_the_loudest_nearby(levels: Seq<Level>, lo: int, hi: int)
    ensures
        match loudest_in(levels, lo, hi) {
            Some(k) => {
                &&& lo <= k < hi
                &&& levels[k].above(silence())
                &&& forall|i: int| lo <= i < hi ==> !(#[trigger] levels[i]).above(levels[k])
                &&& forall|i: int| lo <= i < k ==> levels[k].above(#[trigger] levels[i]) || levels[i].nan()
            },
            None => forall|i: int| lo <= i < hi ==> !(#[trigger] levels[i]).above(silence()),
        },
    decreases hi - lo,
{
    if hi > lo {
        law_spread_is_the_loudest_nearby(levels, lo, hi - 1);
    }
}

} // verus!
