//! The relays that Lucent shows, told apart by their labels.

use crate::level::Level;
use crate::relay_state::{blend_levels, blended, copy_levels};
use vstd::prelude::*;
use vstd::string::*;

verus! {

/// The bit pattern of negative infinity.
pub const NEG_INFINITY_BITS: u32 = 0xff80_0000;

/// One relay: its label and spectrum, and whether the user has it switched on.
pub struct RelayData {
    pub name: String,
    pub spectrum: Vec<Level>,
    pub active: bool,
}

impl RelayData {
    /// A relay that has sent nothing yet.
    pub fn new(name: String) -> (r: RelayData)
        ensures
            r.name == name,
            r.spectrum@.len() == 0,
            r.active,
    {
        RelayData { name, spectrum: Vec::new(), active: true }
    }

    /// A relay that shows the given pattern.
    pub fn dummy(name: &str, pattern: &Vec<Level>) -> (r: RelayData)
        ensures
            r.name@ == name@,
            r.spectrum@ == pattern@,
            r.active,
    {
        RelayData { name: name.to_owned(), spectrum: copy_levels(pattern), active: true }
    }
}

/// What the editor of Lucent shows: the own spectrum, the relays and the name.
pub struct LucentUiState {
    pub own_spectrum: Vec<Level>,
    pub relays: Vec<RelayData>,
    pub name: String,
}

/// The first relay among the first `n` with a label.
pub open spec fn first_named(relays: Seq<RelayData>, name: Seq<char>, n: nat) -> Option<int>
    decreases n,
{
    if n == 0 {
        None
    } else {
        match first_named(relays, name, (n - 1) as nat) {
            Some(k) => Some(k),
            None => if relays[n - 1].name@ == name {
                Some(n - 1)
            } else {
                None
            },
        }
    }
}

/// Whether a relay is what a feed makes of the relays before: the switch of its label is kept
/// (on, where the label is new), and the spectrum is blended where the bins agree.
pub open spec fn fed<B: Fn(Level, Level) -> Level>(
    blend: B,
    before: Seq<RelayData>,
    feed: (String, Vec<Level>),
    r: RelayData,
) -> bool {
    &&& r.name@ == feed.0@
    &&& match first_named(before, feed.0@, before.len()) {
        Some(k) => {
            &&& r.active == before[k].active
            &&& if before[k].spectrum@.len() == feed.1@.len() {
                blended(blend, before[k].spectrum@, feed.1@, r.spectrum@)
            } else {
                r.spectrum@ == feed.1@
            }
        },
        None => r.active && r.spectrum@ == feed.1@,
    }
}

/// The relays among the first `n` that are switched on.
pub open spec fn switched_on(relays: Seq<RelayData>, n: nat) -> Seq<RelayData>
    decreases n,
{
    if n == 0 {
        Seq::empty()
    } else {
        let before = switched_on(relays, (n - 1) as nat);
        if relays[n - 1].active {
            before.push(relays[n - 1])
        } else {
            before
        }
    }
}

/// The loudest of the first `n` relays at a bin.
pub open spec fn loudest_at(relays: Seq<RelayData>, bin: int, n: nat) -> Level
    decreases n,
{
    if n == 0 {
        Level { bits: NEG_INFINITY_BITS }
    } else {
        let before = loudest_at(relays, bin, (n - 1) as nat);
        let s = relays[n - 1].spectrum@;
        if bin < s.len() {
            before.larger(s[bin])
        } else {
            before
        }
    }
}

/// The longest spectrum of the first `n` relays.
pub open spec fn longest(relays: Seq<RelayData>, n: nat) -> nat
    decreases n,
{
    if n == 0 {
        0
    } else {
        let before = longest(relays, (n - 1) as nat);
        let len = relays[n - 1].spectrum@.len();
        if len > before {
            len
        } else {
            before
        }
    }
}

/// The relays behind references.
pub open spec fn pointed(v: Seq<&RelayData>) -> Seq<RelayData> {
    v.map_values(|r: &RelayData| *r)
}

impl LucentUiState {
    /// Nothing heard, no relays, and the name of the plugin.
    pub fn new() -> (r: LucentUiState)
        ensures
            r.own_spectrum@.len() == 0,
            r.relays@.len() == 0,
            r.name@ == "Lucent"@,
    {
        LucentUiState { own_spectrum: Vec::new(), relays: Vec::new(), name: "Lucent".to_owned() }
    }

    /// Three relays that show the given pattern.
    pub fn with_dummy_relays(own: Vec<Level>, pattern: &Vec<Level>) -> (r: LucentUiState)
        ensures
            r.own_spectrum == own,
            r.name@ == "Lucent"@,
            r.relays@.len() == 3,
            r.relays@[0].name@ == "Kick"@,
            r.relays@[1].name@ == "Bass"@,
            r.relays@[2].name@ == "Synth"@,
            forall|i: int|
                0 <= i < 3 ==> (#[trigger] r.relays@[i]).active && r.relays@[i].spectrum@
                    == pattern@,
    {
        let mut relays: Vec<RelayData> = Vec::new();
        relays.push(RelayData::dummy("Kick", pattern));
        relays.push(RelayData::dummy("Bass", pattern));
        relays.push(RelayData::dummy("Synth", pattern));
        LucentUiState { own_spectrum: own, relays, name: "Lucent".to_owned() }
    }

    /// Switches a relay on or off; nothing happens where there is no such relay.
    pub fn toggle_relay(&mut self, index: usize)
        ensures
            final(self).own_spectrum == old(self).own_spectrum,
            final(self).name == old(self).name,
            index >= old(self).relays@.len() ==> final(self).relays@ == old(self).relays@,
            index < old(self).relays@.len() ==> final(self).relays@ == old(self).relays@.update(
                index as int,
                (RelayData {
                    active: !old(self).relays@[index as int].active,
                    ..old(self).relays@[index as int]
                }),
            ),
    {
        if index < self.relays.len() {
            let on: bool = self.relays[index].active;
            self.relays[index].active = !on;
        }
    }

    /// Drops all relays.
    pub fn clear_relays(&mut self)
        ensures
            final(self).relays@.len() == 0,
            final(self).own_spectrum == old(self).own_spectrum,
            final(self).name == old(self).name,
    {
        self.relays = Vec::new();
    }

    /// The first relay with the label.
    fn find_named(&self, name: &String) -> (r: Option<usize>)
        ensures
            match first_named(self.relays@, name@, self.relays@.len()) {
                Some(k) => r is Some && r->0 == k && 0 <= k < self.relays@.len(),
                None => r is None,
            },
    {
        for i in 0..self.relays.len()
            invariant
                first_named(self.relays@, name@, i as nat) is None,
        {
            if self.relays[i].name == *name {
                proof {
                    lemma_first_stays(self.relays@, name@, i as nat + 1, self.relays@.len());
                }
                return Some(i);
            }
        }
        None
    }

    /// Takes in the live feeds: label and spectrum of each relay.
    ///
    /// The switch of a relay is kept by its label; `blend` smooths a level into the one before.
    pub fn sync_relays<B: Fn(Level, Level) -> Level>(
        &mut self,
        feeds: Vec<(String, Vec<Level>)>,
        blend: B,
    )
        requires
            forall|p: Level, s: Level| call_requires(blend, (p, s)),
        ensures
            final(self).own_spectrum == old(self).own_spectrum,
            final(self).name == old(self).name,
            final(self).relays@.len() == feeds@.len(),
            forall|i: int|
                0 <= i < feeds@.len() ==> fed(
                    blend,
                    old(self).relays@,
                    feeds@[i],
                    #[trigger] final(self).relays@[i],
                ),
    {
        let mut relays: Vec<RelayData> = Vec::new();
        for i in 0..feeds.len()
            invariant
                forall|p: Level, s: Level| call_requires(blend, (p, s)),
                *self == *old(self),
                relays.len() == i,
                forall|k: int|
                    0 <= k < i ==> fed(blend, self.relays@, feeds@[k], #[trigger] relays@[k]),
        {
            let name: String = feeds[i].0.clone();
            match self.find_named(&feeds[i].0) {
                Some(k) => {
                    let spectrum: Vec<Level> = if self.relays[k].spectrum.len()
                        == feeds[i].1.len() {
                        blend_levels(&blend, &self.relays[k].spectrum, &feeds[i].1)
                    } else {
                        copy_levels(&feeds[i].1)
                    };
                    let active: bool = self.relays[k].active;
                    relays.push(RelayData { name, spectrum, active });
                },
                None => {
                    let spectrum: Vec<Level> = copy_levels(&feeds[i].1);
                    relays.push(RelayData { name, spectrum, active: true });
                },
            }
        }
        self.relays = relays;
    }

    /// The relays that are switched on.
    pub fn active_relays(&self) -> (r: Vec<&RelayData>)
        ensures
            pointed(r@) == switched_on(self.relays@, self.relays@.len()),
    {
        let mut r: Vec<&RelayData> = Vec::new();
        proof {
            assert(pointed(r@) =~= switched_on(self.relays@, 0));
        }
        for i in 0..self.relays.len()
            invariant
                pointed(r@) == switched_on(self.relays@, i as nat),
        {
            if self.relays[i].active {
                let ghost before = r@;
                r.push(&self.relays[i]);
                proof {
                    assert(pointed(r@) =~= pointed(before).push(self.relays@[i as int]));
                }
            }
        }
        r
    }

    /// The loudest level of each bin over the relays that are switched on; the own spectrum
    /// where there is none.
    pub fn sum_active_spectra(&self) -> (r: Vec<Level>)
        ensures
            ({
                let on = switched_on(self.relays@, self.relays@.len());
                if on.len() == 0 {
                    r@ == self.own_spectrum@
                } else {
                    r@ == Seq::new(
                        longest(on, on.len()),
                        |bin: int| loudest_at(on, bin, on.len()),
                    )
                }
            }),
    {
        let active: Vec<&RelayData> = self.active_relays();
        let ghost on = switched_on(self.relays@, self.relays@.len());
        proof {
            assert(pointed(active@).len() == active@.len());
        }
        if active.len() == 0 {
            return copy_levels(&self.own_spectrum);
        }
        let mut len: usize = 0;
        for i in 0..active.len()
            invariant
                on == pointed(active@),
                len == longest(on, i as nat),
        {
            proof {
                assert(on[i as int] == *active@[i as int]);
            }
            if active[i].spectrum.len() > len {
                len = active[i].spectrum.len();
            }
        }
        let mut sum: Vec<Level> = Vec::new();
        for bin in 0..len
            invariant
                on == pointed(active@),
                sum@ == Seq::new(bin as nat, |b: int| loudest_at(on, b, on.len())),
        {
            let mut best: Level = Level { bits: NEG_INFINITY_BITS };
            for i in 0..active.len()
                invariant
                    on == pointed(active@),
                    best == loudest_at(on, bin as int, i as nat),
            {
                proof {
                    assert(on[i as int] == *active@[i as int]);
                }
                if bin < active[i].spectrum.len() {
                    best = best.max(active[i].spectrum[bin]);
                }
            }
            sum.push(best);
            proof {
                assert(sum@ =~= Seq::new(bin as nat + 1, |b: int| loudest_at(on, b, on.len())));
            }
        }
        sum
    }
}

impl Default for LucentUiState {
    fn default() -> (r: LucentUiState)
        ensures
            r.own_spectrum@.len() == 0,
            r.relays@.len() == 0,
            r.name@ == "Lucent"@,
    {
        LucentUiState::new()
    }
}

proof fn lemma_first_stays(relays: Seq<RelayData>, name: Seq<char>, n: nat, m: nat)
    requires
        n <= m,
        first_named(relays, name, n) is Some,
    ensures
        first_named(relays, name, m) == first_named(relays, name, n),
    decreases m,
{
    if n < m {
        lemma_first_stays(relays, name, n, (m - 1) as nat);
    }
}

proof fn lemma_first_is_earliest(relays: Seq<RelayData>, i: int, n: nat)
    requires
        0 <= i < n <= relays.len(),
        forall|k: int| 0 <= k < i ==> (#[trigger] relays[k]).name@ != relays[i].name@,
    ensures
        first_named(relays, relays[i].name@, n) == Some(i),
    decreases n,
{
    if i < n - 1 {
        lemma_first_is_earliest(relays, i, (n - 1) as nat);
    } else {
        lemma_name_free(relays, relays[i].name@, i as nat);
    }
}

proof fn lemma_name_free(relays: Seq<RelayData>, name: Seq<char>, n: nat)
    requires
        n <= relays.len(),
        forall|k: int| 0 <= k < n ==> (#[trigger] relays[k]).name@ != name,
    ensures
        first_named(relays, name, n) is None,
    decreases n,
{
    if n > 0 {
        lemma_name_free(relays, name, (n - 1) as nat);
    }
}

/// A relay keeps the switch of the first relay that had its label.
pub proof fn law_switch_is_kept_by_label<B: Fn(Level, Level) -> Level>(
    blend: B,
    before: Seq<RelayData>,
    i: int,
    feed: (String, Vec<Level>),
    r: RelayData,
)
    requires
        0 <= i < before.len(),
        forall|k: int| 0 <= k < i ==> (#[trigger] before[k]).name@ != before[i].name@,
        feed.0@ == before[i].name@,
        fed(blend, before, feed, r),
    ensures
        r.active == before[i].active,
{
    lemma_first_is_earliest(before, i, before.len());
}

/// Switching a relay twice leaves it as it was.
pub proof fn law_toggling_twice_changes_nothing(relays: Seq<RelayData>, index: int)
    requires
        0 <= index < relays.len(),
    ensures
        ({
            let once = relays.update(
                index,
                RelayData { active: !relays[index].active, ..relays[index] },
            );
            once.update(index, RelayData { active: !once[index].active, ..once[index] }) == relays
        }),
{
    let once = relays.update(index, RelayData { active: !relays[index].active, ..relays[index] });
    assert(once.update(index, RelayData { active: !once[index].active, ..once[index] }) =~= relays);
}

} // verus!
