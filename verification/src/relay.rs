//! Lucent Relay: which slot it publishes in, under which label, and to which Lucent.

use crate::level::Level;
use crate::masking::SPECTRUM_BINS;
use crate::saved_state::{
    fits, law_saved_texts_come_back, read_state, saved_texts, state_bytes, write_state,
};
use crate::scope::FrameBuffer;
use crate::text::{decimal, list_has, push_decimal, texts};
use vstd::prelude::*;
use vstd::string::*;

verus! {

/// How many samples make one frame.
pub const FFT_SIZE: usize = 2048;

/// The settings of a relay that are saved with the session.
pub struct RelayPersist {
    pub name: String,
    pub target: String,
}

impl RelayPersist {
    /// The texts in the order in which they are saved.
    pub open spec fn fields(&self) -> Seq<Seq<char>> {
        seq![self.name@, self.target@]
    }

    /// The settings as bytes.
    pub fn serialize(&self) -> (r: Vec<u8>)
        requires
            fits(self.name@),
            fits(self.target@),
        ensures
            r@ == state_bytes(self.fields()),
    {
        let fields: Vec<String> = vec![self.name.clone(), self.target.clone()];
        proof {
            assert(texts(fields@) =~= self.fields());
        }
        write_state(&fields)
    }

    /// The settings in bytes; `None` where they are malformed.
    pub fn deserialize(data: &[u8]) -> (r: Option<RelayPersist>)
        ensures
            match r {
                Some(p) => saved_texts(data@, 2) == Some(p.fields()),
                None => saved_texts(data@, 2) is None,
            },
    {
        match read_state(data, 2) {
            Some(v) => {
                let mut v: Vec<String> = v;
                let ghost read = texts(v@);
                proof {
                    assert(read.len() == 2);
                }
                let target: String = v.remove(1);
                let name: String = v.remove(0);
                let p: RelayPersist = RelayPersist { name, target };
                proof {
                    assert(p.fields() =~= read);
                }
                Some(p)
            },
            None => None,
        }
    }
}

/// The settings as the audio side and the editor share them.
pub struct RelayHandle(pub RelayPersist);

impl RelayHandle {
    /// The name of the relay.
    pub fn name(&self) -> (r: String)
        ensures
            r@ == self.0.name@,
    {
        self.0.name.clone()
    }

    /// The Lucent that the relay is meant for; empty where none is chosen.
    pub fn target(&self) -> (r: String)
        ensures
            r@ == self.0.target@,
    {
        self.0.target.clone()
    }
}

/// Why a saved state was not taken.
#[derive(Clone, Copy, Debug, PartialEq, Eq)]
pub enum StateLoadError {
    /// The bytes hold no such state; the text names it.
    Malformed(&'static str),
}

/// Whether a state of that name could not be read.
pub open spec fn malformed(r: Result<(), StateLoadError>, name: Seq<char>) -> bool {
    match r {
        Err(StateLoadError::Malformed(text)) => text@ == name,
        Ok(_) => false,
    }
}

/// One message of a relay: its slot, its label and the Lucent it is meant for.
pub struct Notice {
    pub slot: u8,
    pub label: String,
    pub target: String,
}

/// A running relay.
pub struct LucentRelay {
    pub relay_handle: RelayHandle,
    /// The slot that the editor reads, negative where there is none.
    pub shm_slot: i32,
    pub frame: FrameBuffer,
    pub fft_bins: Vec<Level>,
    pub claimed_slot: Option<u8>,
    pub cached_name: String,
    pub fallback_label: String,
    pub cached_target: String,
}

/// The label of a relay without a name.
pub open spec fn slot_label(slot: int) -> Seq<char> {
    "Relay "@ + decimal((slot + 1) as nat)
}

/// The number by which a slot is published: negative where there is none.
pub open spec fn slot_number(slot: Option<u8>) -> i32 {
    match slot {
        Some(s) => s as i32,
        None => -1i32,
    }
}

/// The Lucent that a living relay turns to: the only one there is, or else the chosen one
/// where it is there.
pub open spec fn live_target(lucents: Seq<Seq<char>>, chosen: Seq<char>) -> Option<Seq<char>> {
    if lucents.len() == 1 {
        Some(lucents[0])
    } else if lucents.contains(chosen) {
        Some(chosen)
    } else {
        None
    }
}

/// The Lucent that a frame is sent to: the chosen one where it is there, or else the only one.
pub open spec fn frame_target(
    chosen: Seq<char>,
    chosen_exists: bool,
    single: Option<Seq<char>>,
) -> Option<Seq<char>> {
    if chosen.len() > 0 && chosen_exists {
        Some(chosen)
    } else {
        single
    }
}

/// The number by which a slot is published.
pub fn published_slot(slot: Option<u8>) -> (r: i32)
    ensures
        r == slot_number(slot),
{
    match slot {
        Some(s) => s as i32,
        None => -1,
    }
}

/// The label of a relay without a name in the slot.
pub fn make_slot_label(slot: u8) -> (r: String)
    ensures
        r@ == slot_label(slot as int),
{
    let mut r: String = "Relay ".to_owned();
    push_decimal(&mut r, slot as u64 + 1);
    r
}

/// The Lucent that a living relay turns to.
pub fn resolve_live_target(lucents: &Vec<String>, chosen: &String) -> (r: Option<String>)
    ensures
        match live_target(texts(lucents@), chosen@) {
            Some(t) => r is Some && r->0@ == t,
            None => r is None,
        },
{
    proof {
        assert(texts(lucents@).len() == lucents@.len());
    }
    if lucents.len() == 1 {
        Some(lucents[0].clone())
    } else if list_has(lucents, chosen) {
        Some(chosen.clone())
    } else {
        None
    }
}

/// The sign of life of a relay, where it has a slot and a Lucent to turn to.
pub fn liveness_notice(shm_slot: i32, lucents: &Vec<String>, settings: &RelayPersist) -> (r: Option<
    Notice,
>)
    requires
        shm_slot <= 255,
    ensures
        match r {
            Some(notice) => {
                &&& shm_slot >= 0
                &&& notice.slot == shm_slot
                &&& notice.label@ == if settings.name@.len() == 0 {
                    slot_label(shm_slot as int)
                } else {
                    settings.name@
                }
                &&& live_target(texts(lucents@), settings.target@) == Some(notice.target@)
            },
            None => shm_slot < 0 || live_target(texts(lucents@), settings.target@) is None,
        },
{
    if shm_slot < 0 {
        return None;
    }
    let slot: u8 = shm_slot as u8;
    match resolve_live_target(lucents, &settings.target) {
        Some(target) => {
            let label: String = if settings.name.as_str().is_empty() {
                make_slot_label(slot)
            } else {
                settings.name.clone()
            };
            Some(Notice { slot, label, target })
        },
        None => None,
    }
}

impl LucentRelay {
    /// The frame buffer has a place to write to.
    pub open spec fn wf(&self) -> bool {
        self.frame.wf()
    }

    /// A relay that has no slot yet.
    pub fn new() -> (r: LucentRelay)
        ensures
            r.wf(),
            r.relay_handle.0.name@.len() == 0,
            r.relay_handle.0.target@.len() == 0,
            r.shm_slot == -1,
            r.frame.write_pos == 0,
            r.frame.input@ == Seq::new(FFT_SIZE as nat, |i: int| Level { bits: 0 }),
            r.fft_bins@ == Seq::new(SPECTRUM_BINS as nat, |i: int| crate::masking::silence()),
            r.claimed_slot is None,
            r.cached_name@.len() == 0,
            r.fallback_label@ == "Relay"@,
            r.cached_target@.len() == 0,
    {
        let r: LucentRelay = LucentRelay {
            relay_handle: RelayHandle(RelayPersist { name: String::new(), target: String::new() }),
            shm_slot: -1,
            frame: FrameBuffer::new(FFT_SIZE),
            fft_bins: vec![Level::silence(); SPECTRUM_BINS],
            claimed_slot: None,
            cached_name: String::new(),
            fallback_label: "Relay".to_owned(),
            cached_target: String::new(),
        };
        proof {
            assert(r.fft_bins@ =~= Seq::new(
                SPECTRUM_BINS as nat,
                |i: int| crate::masking::silence(),
            ));
        }
        r
    }

    /// Claims a slot where none is held; `offered` is what the hub gives, where there is one.
    pub fn claim_slot(&mut self, offered: Option<u8>)
        requires
            offered is Some ==> offered->0 < 255,
        ensures
            final(self).claimed_slot == (if old(self).claimed_slot is Some {
                old(self).claimed_slot
            } else {
                offered
            }),
            final(self).shm_slot == slot_number(final(self).claimed_slot),
            final(self).fallback_label@ == (if old(self).claimed_slot is None
                && offered is Some {
                slot_label(offered->0 as int)
            } else {
                old(self).fallback_label@
            }),
            final(self).relay_handle == old(self).relay_handle,
            final(self).frame == old(self).frame,
            final(self).fft_bins == old(self).fft_bins,
            final(self).cached_name == old(self).cached_name,
            final(self).cached_target == old(self).cached_target,
    {
        if self.claimed_slot.is_none() {
            self.claimed_slot = offered;
            if let Some(s) = offered {
                self.fallback_label = make_slot_label(s);
            }
        }
        self.shm_slot = published_slot(self.claimed_slot);
    }

    /// Takes over the name and the target that the editor has set.
    pub fn refresh(&mut self)
        ensures
            final(self).cached_name@ == old(self).relay_handle.0.name@,
            final(self).cached_target@ == old(self).relay_handle.0.target@,
            final(self).relay_handle == old(self).relay_handle,
            final(self).shm_slot == old(self).shm_slot,
            final(self).frame == old(self).frame,
            final(self).fft_bins == old(self).fft_bins,
            final(self).claimed_slot == old(self).claimed_slot,
            final(self).fallback_label == old(self).fallback_label,
    {
        self.cached_name = self.relay_handle.name();
        self.cached_target = self.relay_handle.target();
    }

    /// What a frame is published as, where the relay has a slot and a Lucent to send to.
    ///
    /// `chosen_exists` tells whether the chosen Lucent is there, `single` names the only one.
    pub fn publish_fft(&self, chosen_exists: bool, single: &Option<String>) -> (r: Option<Notice>)
        ensures
            ({
                let single_name = match *single {
                    Some(s) => Some(s@),
                    None => None,
                };
                let target = frame_target(self.cached_target@, chosen_exists, single_name);
                match r {
                    Some(notice) => {
                        &&& self.claimed_slot == Some(notice.slot)
                        &&& target == Some(notice.target@)
                        &&& notice.label@ == if self.cached_name@.len() == 0 {
                            self.fallback_label@
                        } else {
                            self.cached_name@
                        }
                    },
                    None => self.claimed_slot is None || target is None,
                }
            }),
    {
        let slot: u8 = match self.claimed_slot {
            Some(s) => s,
            None => return None,
        };
        let label: String = if self.cached_name.as_str().is_empty() {
            self.fallback_label.clone()
        } else {
            self.cached_name.clone()
        };
        if !self.cached_target.as_str().is_empty() && chosen_exists {
            return Some(Notice { slot, label, target: self.cached_target.clone() });
        }
        match single {
            Some(name) => Some(Notice { slot, label, target: name.clone() }),
            None => None,
        }
    }

    /// The settings to save, as bytes.
    pub fn save_state(&self) -> (r: Vec<u8>)
        requires
            fits(self.relay_handle.0.name@),
            fits(self.relay_handle.0.target@),
        ensures
            r@ == state_bytes(self.relay_handle.0.fields()),
    {
        self.relay_handle.0.serialize()
    }

    /// Takes the settings of a saved state, unless it is malformed.
    pub fn load_state(&mut self, data: &[u8]) -> (r: Result<(), StateLoadError>)
        ensures
            match saved_texts(data@, 2) {
                Some(fields) => {
                    &&& r is Ok
                    &&& final(self).relay_handle.0.fields() == fields
                    &&& *final(self) == (LucentRelay {
                        relay_handle: final(self).relay_handle,
                        ..*old(self)
                    })
                },
                None => malformed(r, "RelayPersist"@) && *final(self) == *old(self),
            },
    {
        match RelayPersist::deserialize(data) {
            Some(p) => {
                self.relay_handle = RelayHandle(p);
                Ok(())
            },
            None => Err(StateLoadError::Malformed("RelayPersist")),
        }
    }

    /// Takes over the settings once the saved state has changed.
    pub fn state_changed(&mut self)
        ensures
            final(self).cached_name@ == old(self).relay_handle.0.name@,
            final(self).cached_target@ == old(self).relay_handle.0.target@,
            *final(self) == (LucentRelay {
                cached_name: final(self).cached_name,
                cached_target: final(self).cached_target,
                ..*old(self)
            }),
    {
        self.refresh();
    }

    /// Gives the slot back.
    pub fn release(&mut self) -> (r: Option<u8>)
        ensures
            r == old(self).claimed_slot,
            final(self).claimed_slot is None,
            final(self).relay_handle == old(self).relay_handle,
            final(self).shm_slot == old(self).shm_slot,
            final(self).frame == old(self).frame,
            final(self).fft_bins == old(self).fft_bins,
            final(self).cached_name == old(self).cached_name,
            final(self).fallback_label == old(self).fallback_label,
            final(self).cached_target == old(self).cached_target,
    {
        let slot: Option<u8> = self.claimed_slot;
        self.claimed_slot = None;
        slot
    }
}

/// The channel that counts as right: the second, or the only one.
pub fn right_channel(channels: usize) -> (r: usize)
    requires
        channels > 0,
    ensures
        r == (if channels > 1 {
            1int
        } else {
            0
        }),
        r < channels,
{
    if channels > 1 {
        1
    } else {
        0
    }
}

/// A relay turns to the one Lucent that is alive even where another was chosen.
pub proof fn law_only_lucent_is_the_target(lucents: Seq<Seq<char>>, chosen: Seq<char>)
    requires
        lucents.len() == 1,
    ensures
        live_target(lucents, chosen) == Some(lucents[0]),
{
}

/// Among several Lucents a relay turns to none but the chosen one.
pub proof fn law_target_among_many_is_the_chosen(lucents: Seq<Seq<char>>, chosen: Seq<char>)
    requires
        lucents.len() != 1,
    ensures
        live_target(lucents, chosen) is Some ==> live_target(lucents, chosen) == Some(chosen)
            && lucents.contains(chosen),
        lucents.contains(chosen) ==> live_target(lucents, chosen) == Some(chosen),
{
}

/// Settings that were saved come back as they were when they are loaded.
pub proof fn law_saved_settings_load_back(p: RelayPersist)
    requires
        fits(p.name@),
        fits(p.target@),
    ensures
        saved_texts(state_bytes(p.fields()), 2) == Some(p.fields()),
{
    assert forall|k: int| 0 <= k < p.fields().len() implies fits(#[trigger] p.fields()[k]) by {}
    law_saved_texts_come_back(p.fields());
}

} // verus!
