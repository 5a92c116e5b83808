//! What each running instance of Lucent has found, kept apart by instance.

use crate::level::Level;
use crate::masking::copy_names;
use crate::text::texts;
use std::collections::HashMap;
use vstd::prelude::*;
use vstd::std_specs::hash::*;

verus! {

broadcast use group_hash_axioms;

/// A peak with the tracks behind it: bin, level and names.
pub type NamedPeak = (usize, Level, Vec<String>);

/// The resonances of one instance.
pub struct ResonanceLists {
    /// Peaks of the own signal.
    pub own: Vec<(usize, Level)>,
    /// Peaks of the sum of the relays, with the tracks that feed them.
    pub relay: Vec<NamedPeak>,
}

/// The values of a list of named peaks.
pub open spec fn named_peaks(v: Seq<NamedPeak>) -> Seq<(usize, Level, Seq<Seq<char>>)> {
    v.map_values(|p: NamedPeak| (p.0, p.1, texts(p.2@)))
}

impl View for ResonanceLists {
    type V = (Seq<(usize, Level)>, Seq<(usize, Level, Seq<Seq<char>>)>);

    open spec fn view(&self) -> (Seq<(usize, Level)>, Seq<(usize, Level, Seq<Seq<char>>)>) {
        (self.own@, named_peaks(self.relay@))
    }
}

impl Default for ResonanceLists {
    fn default() -> (r: ResonanceLists)
        ensures
            r.own@.len() == 0,
            r.relay@.len() == 0,
    {
        ResonanceLists { own: Vec::new(), relay: Vec::new() }
    }
}

/// A copy of a list of named peaks.
pub fn copy_named(v: &Vec<NamedPeak>) -> (r: Vec<NamedPeak>)
    ensures
        named_peaks(r@) == named_peaks(v@),
{
    let mut r: Vec<NamedPeak> = Vec::new();
    proof {
        assert(named_peaks(r@) =~= named_peaks(v@.take(0)));
    }
    for i in 0..v.len()
        invariant
            named_peaks(r@) == named_peaks(v@.take(i as int)),
    {
        let p: &NamedPeak = &v[i];
        let ghost before = r@;
        r.push((p.0, p.1, copy_names(&p.2)));
        proof {
            assert(named_peaks(r@) =~= named_peaks(before).push((p.0, p.1, texts(p.2@))));
            assert(named_peaks(v@.take(i as int + 1)) =~= named_peaks(v@.take(i as int)).push(
                (p.0, p.1, texts(p.2@)),
            ));
        }
    }
    proof {
        assert(v@.take(v@.len() as int) == v@);
    }
    r
}

/// A copy of a list of peaks.
pub fn copy_peaks(v: &Vec<(usize, Level)>) -> (r: Vec<(usize, Level)>)
    ensures
        r@ == v@,
{
    let mut r: Vec<(usize, Level)> = Vec::new();
    for i in 0..v.len()
        invariant
            r@ == v@.take(i as int),
    {
        r.push(v[i]);
        proof {
            assert(v@.take(i as int + 1) == v@.take(i as int).push(v@[i as int]));
        }
    }
    proof {
        assert(v@.take(v@.len() as int) == v@);
    }
    r
}

/// The resonances of all instances, by the key of the instance.
pub struct ResonanceRegistry {
    pub map: HashMap<usize, ResonanceLists>,
}

/// The masking collisions of all instances, by the key of the instance.
pub struct MaskingRegistry {
    pub map: HashMap<usize, Vec<NamedPeak>>,
}

impl ResonanceRegistry {
    /// What an instance reads: what it published last, or nothing.
    pub open spec fn lists_of(&self, key: usize) -> (
        Seq<(usize, Level)>,
        Seq<(usize, Level, Seq<Seq<char>>)>,
    ) {
        if self.map@.contains_key(key) {
            self.map@[key]@
        } else {
            (Seq::empty(), Seq::empty())
        }
    }

    /// A registry in which nothing is published.
    pub fn new() -> (r: ResonanceRegistry)
        ensures
            r.map@ == Map::<usize, ResonanceLists>::empty(),
    {
        ResonanceRegistry { map: HashMap::new() }
    }
}

/// Publishes the resonances of an instance in place of those before.
pub fn publish_resonance(registry: &mut ResonanceRegistry, key: usize, lists: ResonanceLists)
    ensures
        final(registry).map@ == old(registry).map@.insert(key, lists),
        final(registry).lists_of(key) == lists@,
        forall|k: usize|
            k != key ==> #[trigger] final(registry).lists_of(k) == old(registry).lists_of(k),
{
    registry.map.insert(key, lists);
}

/// The resonances that an instance published last.
pub fn read_resonance(registry: &ResonanceRegistry, key: usize) -> (r: ResonanceLists)
    ensures
        r@ == registry.lists_of(key),
{
    match registry.map.get(&key) {
        Some(lists) => ResonanceLists {
            own: copy_peaks(&lists.own),
            relay: copy_named(&lists.relay),
        },
        None => {
            let r: ResonanceLists = ResonanceLists { own: Vec::new(), relay: Vec::new() };
            proof {
                assert(named_peaks(r.relay@) =~= Seq::empty());
            }
            r
        },
    }
}

/// Forgets an instance.
pub fn remove_resonance(registry: &mut ResonanceRegistry, key: usize)
    ensures
        final(registry).map@ == old(registry).map@.remove(key),
        final(registry).lists_of(key) == (
            Seq::<(usize, Level)>::empty(),
            Seq::<(usize, Level, Seq<Seq<char>>)>::empty(),
        ),
        forall|k: usize|
            k != key ==> #[trigger] final(registry).lists_of(k) == old(registry).lists_of(k),
{
    registry.map.remove(&key);
}

impl MaskingRegistry {
    /// What an instance reads: what it published last, or nothing.
    pub open spec fn peaks_of(&self, key: usize) -> Seq<(usize, Level, Seq<Seq<char>>)> {
        if self.map@.contains_key(key) {
            named_peaks(self.map@[key]@)
        } else {
            Seq::empty()
        }
    }

    /// A registry in which nothing is published.
    pub fn new() -> (r: MaskingRegistry)
        ensures
            r.map@ == Map::<usize, Vec<NamedPeak>>::empty(),
    {
        MaskingRegistry { map: HashMap::new() }
    }
}

/// Publishes the collisions of an instance in place of those before.
pub fn publish_masking(registry: &mut MaskingRegistry, key: usize, peaks: Vec<NamedPeak>)
    ensures
        final(registry).map@ == old(registry).map@.insert(key, peaks),
        final(registry).peaks_of(key) == named_peaks(peaks@),
        forall|k: usize|
            k != key ==> #[trigger] final(registry).peaks_of(k) == old(registry).peaks_of(k),
{
    registry.map.insert(key, peaks);
}

/// The collisions that an instance published last.
pub fn read_masking(registry: &MaskingRegistry, key: usize) -> (r: Vec<NamedPeak>)
    ensures
        named_peaks(r@) == registry.peaks_of(key),
{
    match registry.map.get(&key) {
        Some(peaks) => copy_named(peaks),
        None => {
            let r: Vec<NamedPeak> = Vec::new();
            proof {
                assert(named_peaks(r@) =~= Seq::empty());
            }
            r
        },
    }
}

/// Forgets an instance.
pub fn remove_masking(registry: &mut MaskingRegistry, key: usize)
    ensures
        final(registry).map@ == old(registry).map@.remove(key),
        final(registry).peaks_of(key) == Seq::<(usize, Level, Seq<Seq<char>>)>::empty(),
        forall|k: usize|
            k != key ==> #[trigger] final(registry).peaks_of(k) == old(registry).peaks_of(k),
{
    registry.map.remove(&key);
}

} // verus!
