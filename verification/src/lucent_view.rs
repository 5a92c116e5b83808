//! What the panel of Lucent shows, tick by tick.

use crate::equilibrium::ONE_BITS;
use crate::level::{Level, SILENCE_BITS};
use crate::lucent_change::{equal_relay, equal_shown, shown_equal};
use crate::lucent_editor::Curve;
use crate::lucent_panel::{
    law_user_switches_survive_a_tick, named_numbers, numbers, on_relays, panel_curves,
    shows_masking, spectrum_curves, RankedFindings, TickAccum,
};
use crate::masking::copy_names;
use crate::registry::{copy_named, copy_peaks, named_peaks, NamedPeak, ResonanceLists};
use crate::relay_state::{copy_levels, first_in_slot, RelayData};
use crate::report::{
    format_masking_text, format_resonance_text, masking_panel, resonance_panel, Finding,
};
use crate::text::texts;
use vstd::prelude::*;
use vstd::string::*;

verus! {

/// How many relays have a button.
pub const MAX_RELAY_BAR: usize = 8;

/// The meters as the panel shows them.
#[derive(Clone, Copy, Debug, PartialEq, Eq, Structural)]
pub struct PanelMeters {
    pub peak_l: Level,
    pub peak_r: Level,
    pub hold: Level,
    pub hold_l: Level,
    pub hold_r: Level,
    pub correlation: Level,
    pub balance: Level,
}

/// What the panel shows.
pub struct Telemetry {
    pub own_spectrum: Vec<Level>,
    pub relays: Vec<RelayData>,
    pub resonance: ResonanceLists,
    pub masking: Vec<Level>,
    pub resonance_text: String,
    pub masking_text: String,
    pub show_resonance: bool,
    pub show_masking: bool,
    pub snap_blink: u32,
    pub meters: PanelMeters,
}

/// What a tick reads.
pub struct TickFeed {
    pub mode: i64,
    pub lists: ResonanceLists,
    pub areas: Vec<NamedPeak>,
    /// The own spectrum; `None` while the audio side is writing it.
    pub own_spectrum: Option<Vec<Level>>,
    /// The masking map; `None` while the audio side is writing it.
    pub masking: Option<Vec<Level>>,
    pub feeds: Vec<(u8, String, Vec<Level>)>,
    pub show_resonance: bool,
    pub show_masking: bool,
    pub meters: PanelMeters,
    pub now_ms: u64,
}

/// How numbers are written: the frequency of a bin, and a level.
pub struct Words<H: Fn(usize) -> String, L: Fn(Level) -> String> {
    pub hz: H,
    pub level: L,
}

/// What a tick leads to beside what is shown.
pub struct TickOutcome {
    /// The slots of the relays that are switched on.
    pub relay_mask: u32,
    /// The findings to save.
    pub snapshot: Option<RankedFindings>,
    /// What is shown has changed.
    pub changed: bool,
}

/// The panel of Lucent.
pub struct LucentPanel {
    pub accum: TickAccum,
    pub shown: Telemetry,
}

/// The switches of relays: slot and state.
pub open spec fn switches(relays: Seq<RelayData>) -> Seq<(u8, bool)> {
    relays.map_values(|r: RelayData| (r.slot, r.active))
}

/// Whether two relays are the same.
pub open spec fn same_relay(a: RelayData, b: RelayData) -> bool {
    a.slot == b.slot && a.name@ == b.name@ && a.spectrum@ == b.spectrum@ && a.active == b.active
}

/// Whether two lists hold the same relays.
pub open spec fn same_relays(a: Seq<RelayData>, b: Seq<RelayData>) -> bool {
    a.len() == b.len() && forall|i: int| 0 <= i < a.len() ==> same_relay(#[trigger] a[i], b[i])
}

/// Whether a finding is written as texts.
pub open spec fn written<H: Fn(usize) -> String, L: Fn(Level) -> String>(
    words: Words<H, L>,
    bin: usize,
    level: Level,
    names: Seq<Seq<char>>,
    f: Finding,
) -> bool {
    &&& call_ensures(words.hz, (bin,), f.hz)
    &&& call_ensures(words.level, (level,), f.level)
    &&& texts(f.names@) == names
}

/// Whether findings of the own signal are written as texts.
pub open spec fn all_written<H: Fn(usize) -> String, L: Fn(Level) -> String>(
    words: Words<H, L>,
    peaks: Seq<(usize, Level)>,
    r: Seq<Finding>,
) -> bool {
    &&& r.len() == peaks.len()
    &&& forall|i: int|
        0 <= i < peaks.len() ==> written(
            words,
            peaks[i].0,
            peaks[i].1,
            Seq::empty(),
            #[trigger] r[i],
        )
}

/// Whether findings with names are written as texts.
pub open spec fn named_written<H: Fn(usize) -> String, L: Fn(Level) -> String>(
    words: Words<H, L>,
    peaks: Seq<NamedPeak>,
    r: Seq<Finding>,
) -> bool {
    &&& r.len() == peaks.len()
    &&& forall|i: int|
        0 <= i < peaks.len() ==> written(
            words,
            peaks[i].0,
            peaks[i].1,
            texts(peaks[i].2@),
            #[trigger] r[i],
        )
}

/// Whether the two panel texts tell of findings.
pub open spec fn told<H: Fn(usize) -> String, L: Fn(Level) -> String>(
    words: Words<H, L>,
    found: RankedFindings,
    mode: i64,
    relays: nat,
    resonance_text: Seq<char>,
    masking_text: Seq<char>,
) -> bool {
    exists|own: Seq<Finding>, group: Seq<Finding>, areas: Seq<Finding>|
        {
            &&& #[trigger] all_written(words, found.own@, own)
            &&& #[trigger] named_written(words, found.group@, group)
            &&& #[trigger] named_written(words, found.masking@, areas)
            &&& resonance_text == resonance_panel(own, group)
            &&& masking_text == masking_panel(mode, relays, areas)
        }
}

/// Writes findings of the own signal as texts.
pub fn write_own<H: Fn(usize) -> String, L: Fn(Level) -> String>(
    words: &Words<H, L>,
    peaks: &Vec<(usize, Level)>,
) -> (r: Vec<Finding>)
    requires
        forall|k: usize| call_requires(words.hz, (k,)),
        forall|l: Level| call_requires(words.level, (l,)),
    ensures
        all_written(*words, peaks@, r@),
{
    let mut r: Vec<Finding> = Vec::new();
    for i in 0..peaks.len()
        invariant
            forall|k: usize| call_requires(words.hz, (k,)),
            forall|l: Level| call_requires(words.level, (l,)),
            r@.len() == i,
            forall|k: int|
                0 <= k < i ==> written(
                    *words,
                    peaks@[k].0,
                    peaks@[k].1,
                    Seq::empty(),
                    #[trigger] r@[k],
                ),
    {
        let f: Finding = Finding {
            hz: (words.hz)(peaks[i].0),
            level: (words.level)(peaks[i].1),
            names: Vec::new(),
        };
        proof {
            assert(texts(f.names@) =~= Seq::<Seq<char>>::empty());
        }
        r.push(f);
    }
    r
}

/// Writes findings with names as texts.
pub fn write_named<H: Fn(usize) -> String, L: Fn(Level) -> String>(
    words: &Words<H, L>,
    peaks: &Vec<NamedPeak>,
) -> (r: Vec<Finding>)
    requires
        forall|k: usize| call_requires(words.hz, (k,)),
        forall|l: Level| call_requires(words.level, (l,)),
    ensures
        named_written(*words, peaks@, r@),
{
    let mut r: Vec<Finding> = Vec::new();
    for i in 0..peaks.len()
        invariant
            forall|k: usize| call_requires(words.hz, (k,)),
            forall|l: Level| call_requires(words.level, (l,)),
            r@.len() == i,
            forall|k: int|
                0 <= k < i ==> written(
                    *words,
                    peaks@[k].0,
                    peaks@[k].1,
                    texts(peaks@[k].2@),
                    #[trigger] r@[k],
                ),
    {
        let f: Finding = Finding {
            hz: (words.hz)(peaks[i].0),
            level: (words.level)(peaks[i].1),
            names: copy_names(&peaks[i].2),
        };
        r.push(f);
    }
    r
}

/// A copy of relays.
pub fn copy_relays(relays: &Vec<RelayData>) -> (r: Vec<RelayData>)
    ensures
        same_relays(r@, relays@),
{
    let mut r: Vec<RelayData> = Vec::new();
    for i in 0..relays.len()
        invariant
            r@.len() == i,
            forall|k: int| 0 <= k < i ==> same_relay(#[trigger] r@[k], relays@[k]),
    {
        r.push(
            RelayData {
                slot: relays[i].slot,
                name: relays[i].name.clone(),
                spectrum: copy_levels(&relays[i].spectrum),
                active: relays[i].active,
            },
        );
    }
    r
}

/// The switches of relays.
pub fn list_switches(relays: &Vec<RelayData>) -> (r: Vec<(u8, bool)>)
    ensures
        r@ == switches(relays@),
{
    let mut r: Vec<(u8, bool)> = Vec::new();
    for i in 0..relays.len()
        invariant
            r@ == switches(relays@).take(i as int),
    {
        r.push((relays[i].slot, relays[i].active));
        proof {
            let all = switches(relays@);
            assert(all.take(i as int + 1) =~= all.take(i as int).push(all[i as int]));
        }
    }
    proof {
        assert(switches(relays@).take(relays@.len() as int) =~= switches(relays@));
    }
    r
}

/// Whether `after` is what a tick has to show of what it has read and found.
pub open spec fn shows<H: Fn(usize) -> String, L: Fn(Level) -> String>(
    words: Words<H, L>,
    before: Telemetry,
    feed: TickFeed,
    found: Option<RankedFindings>,
    relays_before: nat,
    synced: TickAccum,
    after: Telemetry,
) -> bool {
    &&& after.own_spectrum@ == synced.ui.own_spectrum@
    &&& same_relays(after.relays@, synced.ui.relays@)
    &&& after.resonance.own@ == feed.lists.own@
    &&& named_peaks(after.resonance.relay@) == named_peaks(feed.lists.relay@)
    &&& after.masking@ == (match feed.masking {
        Some(m) => m@,
        None => before.masking@,
    })
    &&& match found {
        Some(f) => told(
            words,
            f,
            feed.mode,
            relays_before,
            after.resonance_text@,
            after.masking_text@,
        ),
        None => after.resonance_text@ == before.resonance_text@ && after.masking_text@
            == before.masking_text@,
    }
    &&& after.show_resonance == feed.show_resonance
    &&& after.show_masking == feed.show_masking
    &&& after.meters == feed.meters
}

impl LucentPanel {
    /// What is held is well formed.
    pub open spec fn wf(&self) -> bool {
        self.accum.wf()
    }

    /// A panel that has seen nothing.
    pub fn new(vault_path: Option<String>, now_ms: u64) -> (r: LucentPanel)
        ensures
            r.wf(),
            r.accum.ui.relays@.len() == 0,
            r.accum.ui.own_spectrum@.len() == 0,
            r.accum.snap_blink == 0,
            r.accum.display.is_empty(),
            r.accum.session.is_empty(),
            r.accum.window_start_ms == now_ms,
            r.accum.vault_path == vault_path,
            !r.accum.setup_visible,
            !r.accum.snap_request,
            r.shown.own_spectrum@.len() == 0,
            r.shown.relays@.len() == 0,
            r.shown.resonance.own@.len() == 0,
            r.shown.resonance.relay@.len() == 0,
            r.shown.masking@.len() == 0,
            r.shown.resonance_text@ == "No resonances detected"@,
            r.shown.masking_text@ == "No masking detected"@,
            r.shown.show_resonance,
            r.shown.show_masking,
            r.shown.snap_blink == 0,
            r.shown.meters == (PanelMeters {
                peak_l: Level { bits: SILENCE_BITS },
                peak_r: Level { bits: SILENCE_BITS },
                hold: Level { bits: SILENCE_BITS },
                hold_l: Level { bits: SILENCE_BITS },
                hold_r: Level { bits: SILENCE_BITS },
                correlation: Level { bits: ONE_BITS },
                balance: Level { bits: 0 },
            }),
    {
        let silent: Level = Level { bits: SILENCE_BITS };
        LucentPanel {
            accum: TickAccum::new(vault_path, now_ms),
            shown: Telemetry {
                own_spectrum: Vec::new(),
                relays: Vec::new(),
                resonance: ResonanceLists { own: Vec::new(), relay: Vec::new() },
                masking: Vec::new(),
                resonance_text: "No resonances detected".to_owned(),
                masking_text: "No masking detected".to_owned(),
                show_resonance: true,
                show_masking: true,
                snap_blink: 0,
                meters: PanelMeters {
                    peak_l: silent,
                    peak_r: silent,
                    hold: silent,
                    hold_l: silent,
                    hold_r: silent,
                    correlation: Level { bits: ONE_BITS },
                    balance: Level { bits: 0 },
                },
            },
        }
    }

    /// Whether a tick leads from one panel to the other: the findings are held, the texts are
    /// written anew where it is time, the relays follow their feeds with the switches that are
    /// shown, and a snapshot that was asked for is handed out.  What there is to show is shown
    /// where it differs from what is shown.
    pub open spec fn ticked<
        B: Fn(Level, Level) -> Level,
        H: Fn(usize) -> String,
        L: Fn(Level) -> String,
    >(
        blend: B,
        words: Words<H, L>,
        before: LucentPanel,
        feed: TickFeed,
        r: TickOutcome,
        after: LucentPanel,
    ) -> bool {
        exists|
            gathered: TickAccum,
            refreshed: TickAccum,
            synced: TickAccum,
            found: Option<RankedFindings>,
            next: Telemetry,
        |
            {
                &&& TickAccum::gathers(before.accum, feed.lists, feed.areas@, gathered)
                &&& #[trigger] TickAccum::refreshes(gathered, feed.now_ms, found, refreshed)
                &&& #[trigger] TickAccum::follows(
                    blend,
                    refreshed,
                    feed.mode,
                    feed.own_spectrum,
                    switches(before.shown.relays@),
                    feed.feeds@,
                    r.relay_mask,
                    synced,
                )
                &&& TickAccum::ends(synced, r.snapshot, after.accum)
                &&& #[trigger] shows(
                    words,
                    before.shown,
                    feed,
                    found,
                    before.accum.ui.relays@.len(),
                    synced,
                    next,
                )
                &&& next.snap_blink == after.accum.snap_blink
                &&& r.changed == !equal_shown(next, before.shown)
                &&& after.shown == (if r.changed {
                    next
                } else {
                    before.shown
                })
            }
    }

    /// One tick.
    pub fn tick<
        B: Fn(Level, Level) -> Level,
        H: Fn(usize) -> String,
        L: Fn(Level) -> String,
    >(&mut self, feed: TickFeed, blend: B, words: &Words<H, L>) -> (r: TickOutcome)
        requires
            old(self).wf(),
            numbers(feed.lists.own@),
            named_numbers(feed.lists.relay@),
            named_numbers(feed.areas@),
            forall|i: int| 0 <= i < feed.feeds@.len() ==> (#[trigger] feed.feeds@[i]).0 < 32,
            forall|p: Level, s: Level| call_requires(blend, (p, s)),
            forall|k: usize| call_requires(words.hz, (k,)),
            forall|l: Level| call_requires(words.level, (l,)),
        ensures
            final(self).wf(),
            Self::ticked(blend, *words, *old(self), feed, r, *final(self)),
    {
        let ghost start = *self;
        let ghost whole = feed;
        let relays_before: usize = self.accum.ui.relays.len();
        self.accum.gather(&feed.lists, &feed.areas);
        let ghost gathered = self.accum;
        let found: Option<RankedFindings> = self.accum.refresh(feed.now_ms);
        let ghost refreshed = self.accum;
        let (resonance_text, masking_text): (String, String) = match &found {
            Some(f) => {
                let own: Vec<Finding> = write_own(words, &f.own);
                let group: Vec<Finding> = write_named(words, &f.group);
                let areas: Vec<Finding> = write_named(words, &f.masking);
                let resonance_text: String = format_resonance_text(&own, &group);
                let masking_text: String = format_masking_text(feed.mode, relays_before, &areas);
                proof {
                    assert(all_written(*words, f.own@, own@));
                    assert(named_written(*words, f.group@, group@));
                    assert(named_written(*words, f.masking@, areas@));
                    assert(told(
                        *words,
                        *f,
                        feed.mode,
                        relays_before as nat,
                        resonance_text@,
                        masking_text@,
                    ));
                }
                (resonance_text, masking_text)
            },
            None => (self.shown.resonance_text.clone(), self.shown.masking_text.clone()),
        };
        let shown: Vec<(u8, bool)> = list_switches(&self.shown.relays);
        let mask: u32 = self.accum.sync(feed.mode, feed.own_spectrum, &shown, feed.feeds, blend);
        let ghost synced = self.accum;
        let own_spectrum: Vec<Level> = copy_levels(&self.accum.ui.own_spectrum);
        let relays: Vec<RelayData> = copy_relays(&self.accum.ui.relays);
        let snapshot: Option<RankedFindings> = self.accum.end_tick();
        let next: Telemetry = Telemetry {
            own_spectrum,
            relays,
            resonance: ResonanceLists {
                own: copy_peaks(&feed.lists.own),
                relay: copy_named(&feed.lists.relay),
            },
            masking: match feed.masking {
                Some(m) => m,
                None => copy_levels(&self.shown.masking),
            },
            resonance_text,
            masking_text,
            show_resonance: feed.show_resonance,
            show_masking: feed.show_masking,
            snap_blink: self.accum.snap_blink,
            meters: feed.meters,
        };
        let ghost shown_next = next;
        let changed: bool = !shown_equal(&next, &self.shown);
        if changed {
            self.shown = next;
        }
        let r: TickOutcome = TickOutcome { relay_mask: mask, snapshot, changed };
        proof {
            assert(TickAccum::refreshes(gathered, whole.now_ms, found, refreshed));
            assert(TickAccum::follows(
                blend,
                refreshed,
                whole.mode,
                whole.own_spectrum,
                switches(start.shown.relays@),
                whole.feeds@,
                r.relay_mask,
                synced,
            ));
            assert(shows(
                *words,
                start.shown,
                whole,
                found,
                start.accum.ui.relays@.len(),
                synced,
                shown_next,
            ));
        }
        r
    }

    /// The button of a relay: flips its switch, until the next tick takes it over.
    pub fn press_relay(&mut self, idx: usize)
        requires
            old(self).wf(),
        ensures
            final(self).wf(),
            if idx < old(self).shown.relays@.len() {
                let relay = old(self).shown.relays@[idx as int];
                &&& final(self).shown.relays@ == old(self).shown.relays@.update(
                    idx as int,
                    RelayData { active: !relay.active, ..relay },
                )
                &&& *final(self) == (LucentPanel {
                    shown: Telemetry {
                        relays: final(self).shown.relays,
                        ..old(self).shown
                    },
                    ..*old(self)
                })
            } else {
                *final(self) == *old(self)
            },
    {
        if idx < self.shown.relays.len() {
            let on: bool = self.shown.relays[idx].active;
            self.shown.relays[idx].active = !on;
        }
    }
}

/// What the main panel draws.
pub struct PanelView {
    /// The buttons of the relays, label and state; `None` where there are no relays by the mode.
    pub relay_bar: Option<Vec<(String, bool)>>,
    /// Whether the bar tells that no relay has come yet.
    pub placeholder: bool,
    /// Whether the own spectrum stands alone, and is drawn stronger.
    pub alone: bool,
    pub curves: Vec<Curve>,
    pub resonance_peaks: Vec<(usize, Level)>,
    pub masking: Vec<Level>,
    /// Whether the masking can be switched.
    pub masking_switch: bool,
}

/// Whether `bar` holds the buttons of the first relays.
pub open spec fn buttons(relays: Seq<RelayData>, bar: Seq<(String, bool)>) -> bool {
    &&& bar.len() == (if relays.len() < MAX_RELAY_BAR {
        relays.len()
    } else {
        MAX_RELAY_BAR as nat
    })
    &&& forall|i: int|
        0 <= i < bar.len() ==> (#[trigger] bar[i]).0@ == relays[i].name@ && bar[i].1
            == relays[i].active
}

/// The peaks of a list without their names.
pub open spec fn unnamed(peaks: Seq<NamedPeak>) -> Seq<(usize, Level)> {
    peaks.map_values(|p: NamedPeak| (p.0, p.1))
}

impl LucentPanel {
    /// What the main panel draws in a mode.
    pub fn main_panel(&self, mode: i64) -> (r: PanelView)
        ensures
            r.relay_bar is Some <==> mode != 0,
            mode != 0 ==> buttons(self.shown.relays@, r.relay_bar->0@),
            r.placeholder == (mode != 0 && self.shown.relays@.len() == 0),
            r.alone == (self.shown.relays@.len() == 0 || mode == 0),
            panel_curves(
                self.shown.own_spectrum@,
                if mode == 0 {
                    Seq::empty()
                } else {
                    on_relays(self.shown.relays@, self.shown.relays@.len())
                },
                r.curves@,
            ),
            r.resonance_peaks@ == (if self.shown.show_resonance {
                self.shown.resonance.own@ + unnamed(self.shown.resonance.relay@)
            } else {
                Seq::empty()
            }),
            r.masking@ == (if self.shown.show_masking && (self.shown.relays@.len() > 0 || mode
                == 2) {
                self.shown.masking@
            } else {
                Seq::empty()
            }),
            r.masking_switch == (mode != 0),
    {
        let relays: usize = self.shown.relays.len();
        PanelView {
            relay_bar: if mode == 0 {
                None
            } else {
                Some(self.relay_buttons())
            },
            placeholder: mode != 0 && relays == 0,
            alone: relays == 0 || mode == 0,
            curves: spectrum_curves(&self.shown.own_spectrum, &self.shown.relays, mode),
            resonance_peaks: if self.shown.show_resonance {
                self.shown_peaks()
            } else {
                Vec::new()
            },
            masking: if shows_masking(self.shown.show_masking, relays, mode) {
                copy_levels(&self.shown.masking)
            } else {
                Vec::new()
            },
            masking_switch: mode != 0,
        }
    }

    fn relay_buttons(&self) -> (r: Vec<(String, bool)>)
        ensures
            buttons(self.shown.relays@, r@),
    {
        let relays: &Vec<RelayData> = &self.shown.relays;
        let n: usize = if relays.len() < MAX_RELAY_BAR {
            relays.len()
        } else {
            MAX_RELAY_BAR
        };
        let mut r: Vec<(String, bool)> = Vec::new();
        for i in 0..n
            invariant
                n <= relays@.len(),
                r@.len() == i,
                forall|k: int|
                    0 <= k < i ==> (#[trigger] r@[k]).0@ == relays@[k].name@ && r@[k].1
                        == relays@[k].active,
        {
            r.push((relays[i].name.clone(), relays[i].active));
        }
        r
    }

    fn shown_peaks(&self) -> (r: Vec<(usize, Level)>)
        ensures
            r@ == self.shown.resonance.own@ + unnamed(self.shown.resonance.relay@),
    {
        let lists: &ResonanceLists = &self.shown.resonance;
        let mut r: Vec<(usize, Level)> = copy_peaks(&lists.own);
        let ghost all = unnamed(lists.relay@);
        proof {
            assert(r@ =~= lists.own@ + all.take(0));
        }
        for i in 0..lists.relay.len()
            invariant
                all == unnamed(lists.relay@),
                r@ == lists.own@ + all.take(i as int),
        {
            r.push((lists.relay[i].0, lists.relay[i].1));
            proof {
                assert(all.take(i as int + 1) =~= all.take(i as int).push(all[i as int]));
                assert(r@ =~= lists.own@ + all.take(i as int + 1));
            }
        }
        proof {
            assert(all.take(lists.relay@.len() as int) =~= all);
        }
        r
    }

    /// What the snapshot button shows.
    pub fn snap_label(&self) -> (r: String)
        ensures
            r@ == (if self.shown.snap_blink > 0 {
                "ANALYZING..."@
            } else {
                "SNAP"@
            }),
    {
        if self.shown.snap_blink > 0 {
            "ANALYZING...".to_owned()
        } else {
            "SNAP".to_owned()
        }
    }
}

/// The switch that a button flips is the one that the relay in its slot has after the next tick.
pub proof fn law_pressed_relays_stay_switched<
    B: Fn(Level, Level) -> Level,
    H: Fn(usize) -> String,
    L: Fn(Level) -> String,
>(
    blend: B,
    words: Words<H, L>,
    panel: LucentPanel,
    idx: int,
    pressed: LucentPanel,
    feed: TickFeed,
    r: TickOutcome,
    after: LucentPanel,
    i: int,
)
    requires
        0 <= idx < panel.shown.relays@.len(),
        pressed.shown.relays@ == panel.shown.relays@.update(
            idx,
            RelayData {
                active: !panel.shown.relays@[idx].active,
                ..panel.shown.relays@[idx]
            },
        ),
        forall|j: int|
            idx < j < panel.shown.relays@.len() ==> (#[trigger] panel.shown.relays@[j]).slot
                != panel.shown.relays@[idx].slot,
        first_in_slot(
            pressed.accum.ui.relays@,
            panel.shown.relays@[idx].slot,
            pressed.accum.ui.relays@.len(),
        ) is Some,
        LucentPanel::ticked(blend, words, pressed, feed, r, after),
        feed.mode != 0,
        0 <= i < feed.feeds@.len(),
        feed.feeds@[i].0 == panel.shown.relays@[idx].slot,
    ensures
        after.shown.relays@[i].active == !panel.shown.relays@[idx].active,
{
    let (gathered, refreshed, synced, found, next): (
        TickAccum,
        TickAccum,
        TickAccum,
        Option<RankedFindings>,
        Telemetry,
    ) = choose|
        gathered: TickAccum,
        refreshed: TickAccum,
        synced: TickAccum,
        found: Option<RankedFindings>,
        next: Telemetry,
    |
        {
            &&& TickAccum::gathers(pressed.accum, feed.lists, feed.areas@, gathered)
            &&& #[trigger] TickAccum::refreshes(gathered, feed.now_ms, found, refreshed)
            &&& #[trigger] TickAccum::follows(
                blend,
                refreshed,
                feed.mode,
                feed.own_spectrum,
                switches(pressed.shown.relays@),
                feed.feeds@,
                r.relay_mask,
                synced,
            )
            &&& TickAccum::ends(synced, r.snapshot, after.accum)
            &&& #[trigger] shows(
                words,
                pressed.shown,
                feed,
                found,
                pressed.accum.ui.relays@.len(),
                synced,
                next,
            )
            &&& next.snap_blink == after.accum.snap_blink
            &&& r.changed == !equal_shown(next, pressed.shown)
            &&& after.shown == (if r.changed {
                next
            } else {
                pressed.shown
            })
        };
    let shown = switches(pressed.shown.relays@);
    assert(shown[idx].0 == panel.shown.relays@[idx].slot);
    assert forall|j: int| idx < j < shown.len() implies (#[trigger] shown[j]).0 != shown[idx].0 by {
        assert(pressed.shown.relays@[j] == panel.shown.relays@[j]);
    }
    law_user_switches_survive_a_tick(
        blend,
        refreshed.ui.relays@,
        shown,
        idx,
        feed.feeds@[i],
        synced.ui.relays@[i],
    );
    assert(same_relay(next.relays@[i], synced.ui.relays@[i]));
    if !r.changed {
        assert(equal_relay(next.relays@[i], pressed.shown.relays@[i]));
    }
}

/// A tick tells of a change where what is shown is another than before, and only there, as long
/// as all that was shown are numbers.
pub proof fn law_a_tick_tells_what_changed<
    B: Fn(Level, Level) -> Level,
    H: Fn(usize) -> String,
    L: Fn(Level) -> String,
>(
    blend: B,
    words: Words<H, L>,
    before: LucentPanel,
    feed: TickFeed,
    r: TickOutcome,
    after: LucentPanel,
)
    requires
        LucentPanel::ticked(blend, words, before, feed, r, after),
        equal_shown(before.shown, before.shown),
    ensures
        r.changed <==> !equal_shown(after.shown, before.shown),
        !r.changed ==> after.shown == before.shown,
{
}

} // verus!
