//! The relays that Lucent shows, told apart by the slot they publish in.

use crate::level::Level;
use vstd::prelude::*;
use vstd::string::*;

verus! {

/// One relay: its slot, label and spectrum, and whether the user has it switched on.
pub struct RelayData {
    /// The slot stays the same even where two labels are equal.
    pub slot: u8,
    pub name: String,
    pub spectrum: Vec<Level>,
    pub active: bool,
}

/// What the editor of Lucent shows: the own spectrum and the relays.
pub struct LucentUiState {
    pub own_spectrum: Vec<Level>,
    pub relays: Vec<RelayData>,
}

/// The first relay among the first `n` in a slot.
pub open spec fn first_in_slot(relays: Seq<RelayData>, slot: u8, n: nat) -> Option<int>
    decreases n,
{
    if n == 0 {
        None
    } else {
        match first_in_slot(relays, slot, (n - 1) as nat) {
            Some(k) => Some(k),
            None => if relays[n - 1].slot == slot {
                Some(n - 1)
            } else {
                None
            },
        }
    }
}

/// Whether a spectrum is the blend, bin by bin, of the one before and the new one.
pub open spec fn blended<B: Fn(Level, Level) -> Level>(
    blend: B,
    before: Seq<Level>,
    new: Seq<Level>,
    r: Seq<Level>,
) -> bool {
    &&& r.len() == new.len()
    &&& forall|j: int|
        0 <= j < new.len() ==> call_ensures(blend, (before[j], new[j]), #[trigger] r[j])
}

/// Whether a relay is what a feed makes of the relays before: the switch of its slot is kept
/// (on, where the slot is new), and the spectrum is blended where the bins agree.
pub open spec fn fed<B: Fn(Level, Level) -> Level>(
    blend: B,
    before: Seq<RelayData>,
    feed: (u8, String, Vec<Level>),
    r: RelayData,
) -> bool {
    &&& r.slot == feed.0
    &&& r.name@ == feed.1@
    &&& match first_in_slot(before, feed.0, before.len()) {
        Some(k) => {
            &&& r.active == before[k].active
            &&& if before[k].spectrum@.len() == feed.2@.len() {
                blended(blend, before[k].spectrum@, feed.2@, r.spectrum@)
            } else {
                r.spectrum@ == feed.2@
            }
        },
        None => r.active && r.spectrum@ == feed.2@,
    }
}

/// A copy of a spectrum.
pub fn copy_levels(v: &Vec<Level>) -> (r: Vec<Level>)
    ensures
        r@ == v@,
{
    let mut r: Vec<Level> = Vec::new();
    for i in 0..v.len()
        invariant
            r@ == v@.take(i as int),
    {
        r.push(v[i]);
        proof {
            assert(v@.take(i as int + 1) == v@.take(i as int).push(v@[i as int]));
        }
    }
    proof {
        assert(v@.take(v@.len() as int) == v@);
    }
    r
}

/// The blend, bin by bin, of the spectrum before and the new one.
pub fn blend_levels<B: Fn(Level, Level) -> Level>(
    blend: &B,
    before: &Vec<Level>,
    new: &Vec<Level>,
) -> (r: Vec<Level>)
    requires
        before.len() == new.len(),
        forall|p: Level, s: Level| call_requires(*blend, (p, s)),
    ensures
        blended(*blend, before@, new@, r@),
{
    let mut r: Vec<Level> = Vec::new();
    for j in 0..new.len()
        invariant
            before.len() == new.len(),
            forall|p: Level, s: Level| call_requires(*blend, (p, s)),
            r.len() == j,
            forall|i: int|
                0 <= i < j ==> call_ensures(*blend, (before@[i], new@[i]), #[trigger] r@[i]),
    {
        r.push(blend(before[j], new[j]));
    }
    r
}

impl LucentUiState {
    /// Nothing heard and no relays.
    pub fn new() -> (r: LucentUiState)
        ensures
            r.own_spectrum@.len() == 0,
            r.relays@.len() == 0,
    {
        LucentUiState { own_spectrum: Vec::new(), relays: Vec::new() }
    }

    /// Drops all relays.
    pub fn clear_relays(&mut self)
        ensures
            final(self).relays@.len() == 0,
            final(self).own_spectrum == old(self).own_spectrum,
    {
        self.relays = Vec::new();
    }

    /// The first relay in the slot.
    pub fn find_slot(&self, slot: u8) -> (r: Option<usize>)
        ensures
            match first_in_slot(self.relays@, slot, self.relays@.len()) {
                Some(k) => r is Some && r->0 == k && 0 <= k < self.relays@.len(),
                None => r is None,
            },
    {
        for i in 0..self.relays.len()
            invariant
                first_in_slot(self.relays@, slot, i as nat) is None,
        {
            if self.relays[i].slot == slot {
                proof {
                    lemma_first_stays(self.relays@, slot, i as nat + 1, self.relays@.len());
                }
                return Some(i);
            }
        }
        None
    }

    /// Takes in the live feeds: slot, label and spectrum of each relay.
    ///
    /// The switch of a relay is kept by its slot; `blend` smooths a level into the one before.
    pub fn sync_relays<B: Fn(Level, Level) -> Level>(
        &mut self,
        feeds: Vec<(u8, String, Vec<Level>)>,
        blend: B,
    )
        requires
            forall|p: Level, s: Level| call_requires(blend, (p, s)),
        ensures
            final(self).own_spectrum == old(self).own_spectrum,
            final(self).relays@.len() == feeds@.len(),
            forall|i: int|
                0 <= i < feeds@.len() ==> fed(
                    blend,
                    old(self).relays@,
                    feeds@[i],
                    #[trigger] final(self).relays@[i],
                ),
    {
        let mut relays: Vec<RelayData> = Vec::new();
        for i in 0..feeds.len()
            invariant
                forall|p: Level, s: Level| call_requires(blend, (p, s)),
                *self == *old(self),
                relays.len() == i,
                forall|k: int|
                    0 <= k < i ==> fed(blend, self.relays@, feeds@[k], #[trigger] relays@[k]),
        {
            let slot: u8 = feeds[i].0;
            let name: String = feeds[i].1.clone();
            let found: Option<usize> = self.find_slot(slot);
            match found {
                Some(k) => {
                    let spectrum: Vec<Level> = if self.relays[k].spectrum.len()
                        == feeds[i].2.len() {
                        blend_levels(&blend, &self.relays[k].spectrum, &feeds[i].2)
                    } else {
                        copy_levels(&feeds[i].2)
                    };
                    let active: bool = self.relays[k].active;
                    relays.push(RelayData { slot, name, spectrum, active });
                },
                None => {
                    let spectrum: Vec<Level> = copy_levels(&feeds[i].2);
                    relays.push(RelayData { slot, name, spectrum, active: true });
                },
            }
        }
        self.relays = relays;
    }

    /// One bit per slot: set where a relay in it is switched on.
    pub fn relay_active_mask(&self) -> (mask: u32)
        requires
            forall|i: int| 0 <= i < self.relays@.len() ==> (#[trigger] self.relays@[i]).slot < 32,
        ensures
            forall|slot: u32|
                slot < 32 ==> (#[trigger] bit(mask, slot) <==> slot_active(
                    self.relays@,
                    slot,
                    self.relays@.len(),
                )),
    {
        let mut mask: u32 = 0;
        proof {
            assert forall|slot: u32| slot < 32 implies !(#[trigger] bit(mask, slot)) by {
                lemma_no_bits(slot);
            }
        }
        for i in 0..self.relays.len()
            invariant
                forall|k: int|
                    0 <= k < self.relays@.len() ==> (#[trigger] self.relays@[k]).slot < 32,
                forall|slot: u32|
                    slot < 32 ==> (#[trigger] bit(mask, slot) <==> slot_active(
                        self.relays@,
                        slot,
                        i as nat,
                    )),
        {
            if self.relays[i].active {
                let s: u32 = self.relays[i].slot as u32;
                let before: u32 = mask;
                mask = mask | (1u32 << s);
                proof {
                    assert forall|slot: u32| slot < 32 implies (#[trigger] bit(mask, slot)
                        <==> slot_active(self.relays@, slot, i as nat + 1)) by {
                        lemma_bit_set(before, s, slot);
                        assert(bit(before, slot) <==> slot_active(self.relays@, slot, i as nat));
                    }
                }
            } else {
                proof {
                    assert forall|slot: u32| slot < 32 implies (#[trigger] bit(mask, slot)
                        <==> slot_active(self.relays@, slot, i as nat + 1)) by {
                        assert(bit(mask, slot) <==> slot_active(self.relays@, slot, i as nat));
                    }
                }
            }
        }
        mask
    }
}

impl Default for LucentUiState {
    fn default() -> (r: LucentUiState)
        ensures
            r.own_spectrum@.len() == 0,
            r.relays@.len() == 0,
    {
        LucentUiState::new()
    }
}

/// Whether a bit of a mask is set.
pub open spec fn bit(mask: u32, slot: u32) -> bool {
    (mask >> slot) & 1 == 1
}

/// Whether one of the first `n` relays is in a slot and switched on.
pub open spec fn slot_active(relays: Seq<RelayData>, slot: u32, n: nat) -> bool
    decreases n,
{
    n > 0 && (slot_active(relays, slot, (n - 1) as nat) || (relays[n - 1].slot == slot
        && relays[n - 1].active))
}

proof fn lemma_no_bits(slot: u32)
    requires
        slot < 32,
    ensures
        !bit(0, slot),
{
    assert((0u32 >> slot) & 1 == 0) by (bit_vector)
        requires
            slot < 32,
    ;
}

proof fn lemma_bit_set(mask: u32, s: u32, slot: u32)
    requires
        s < 32,
        slot < 32,
    ensures
        bit(mask | (1u32 << s), slot) <==> bit(mask, slot) || slot == s,
{
    assert((((mask | (1u32 << s)) >> slot) & 1 == 1) <==> ((mask >> slot) & 1 == 1) || slot == s)
        by (bit_vector)
        requires
            s < 32,
            slot < 32,
    ;
}

proof fn lemma_first_stays(relays: Seq<RelayData>, slot: u8, n: nat, m: nat)
    requires
        n <= m,
        first_in_slot(relays, slot, n) is Some,
    ensures
        first_in_slot(relays, slot, m) == first_in_slot(relays, slot, n),
    decreases m,
{
    if n < m {
        lemma_first_stays(relays, slot, n, (m - 1) as nat);
    }
}

proof fn lemma_unique_slot(relays: Seq<RelayData>, i: int, n: nat)
    requires
        0 <= i < n <= relays.len(),
        forall|k: int| 0 <= k < relays.len() && k != i ==> (#[trigger] relays[k]).slot
            != relays[i].slot,
    ensures
        first_in_slot(relays, relays[i].slot, n) == Some(i),
    decreases n,
{
    if i < n - 1 {
        lemma_unique_slot(relays, i, (n - 1) as nat);
    } else {
        lemma_slot_free(relays, relays[i].slot, i as nat);
    }
}

proof fn lemma_slot_free(relays: Seq<RelayData>, slot: u8, n: nat)
    requires
        n <= relays.len(),
        forall|k: int| 0 <= k < n ==> (#[trigger] relays[k]).slot != slot,
    ensures
        first_in_slot(relays, slot, n) is None,
    decreases n,
{
    if n > 0 {
        lemma_slot_free(relays, slot, (n - 1) as nat);
    }
}

/// A relay keeps the switch of its slot, whatever its label turns into.
pub proof fn law_switch_is_kept_by_slot<B: Fn(Level, Level) -> Level>(
    blend: B,
    before: Seq<RelayData>,
    i: int,
    feed: (u8, String, Vec<Level>),
    r: RelayData,
)
    requires
        0 <= i < before.len(),
        forall|k: int| 0 <= k < before.len() && k != i ==> (#[trigger] before[k]).slot
            != before[i].slot,
        feed.0 == before[i].slot,
        fed(blend, before, feed, r),
    ensures
        r.active == before[i].active,
{
    lemma_unique_slot(before, i, before.len());
}

/// A relay in a slot that no relay was in before is switched on and not smoothed.
pub proof fn law_new_relays_are_on<B: Fn(Level, Level) -> Level>(
    blend: B,
    before: Seq<RelayData>,
    feed: (u8, String, Vec<Level>),
    r: RelayData,
)
    requires
        forall|k: int| 0 <= k < before.len() ==> (#[trigger] before[k]).slot != feed.0,
        fed(blend, before, feed, r),
    ensures
        r.active,
        r.spectrum@ == feed.2@,
{
    lemma_slot_free(before, feed.0, before.len());
}

} // verus!
