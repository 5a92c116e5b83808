//! What the editor of Lucent keeps from tick to tick: the relays, the findings held for its
//! panels and for the next snapshot, and the state of the snapshot button.

use crate::level::Level;
use crate::lucent_editor::{Curve, RELAY_COLORS, SNAP_BLINK_TICKS};
use crate::max_hold::{
    max_hold_named, max_hold_score, named_held, named_ranked, score_held, NamedHold, NamedModel,
    ScoreHold,
};
use crate::registry::{named_peaks, NamedPeak, ResonanceLists};
use crate::relay_state::{
    bit, copy_levels, fed, first_in_slot, slot_active, LucentUiState, RelayData,
};
use crate::resonance::ranked;
use crate::text::texts;
use crate::vault::{opt_text, path_of, vault_path_of};
use vstd::prelude::*;
use vstd::string::*;

verus! {

/// How long a finding stays in the panels, in milliseconds.
pub const DISPLAY_HOLD_MS: u64 = 500;

/// How many findings of each sort a panel lists.
pub const PANEL_LINES: usize = 3;

/// Findings held: of the own signal, of the group, and masking areas.
pub struct Findings {
    pub own: ScoreHold,
    pub group: NamedHold,
    pub masking: NamedHold,
}

/// Findings by falling level.
pub struct RankedFindings {
    pub own: Vec<(usize, Level)>,
    pub group: Vec<NamedPeak>,
    pub masking: Vec<NamedPeak>,
}

/// The scores held once the first `n` of a list have come.
pub open spec fn scores_after(
    entries: Seq<(usize, Level)>,
    peaks: Seq<(usize, Level)>,
    n: nat,
) -> Seq<(usize, Level)>
    decreases n,
{
    if n == 0 {
        entries
    } else {
        score_held(scores_after(entries, peaks, (n - 1) as nat), peaks[n - 1].0, peaks[n - 1].1)
    }
}

/// The named levels held once the first `n` of a list have come.
pub open spec fn named_after(
    entries: Seq<NamedModel>,
    peaks: Seq<NamedModel>,
    n: nat,
) -> Seq<NamedModel>
    decreases n,
{
    if n == 0 {
        entries
    } else {
        named_held(
            named_after(entries, peaks, (n - 1) as nat),
            peaks[n - 1].0,
            peaks[n - 1].1,
            peaks[n - 1].2,
        )
    }
}

/// Whether every level of a list is a number.
pub open spec fn numbers(peaks: Seq<(usize, Level)>) -> bool {
    forall|i: int| 0 <= i < peaks.len() ==> !(#[trigger] peaks[i]).1.nan()
}

/// Whether every level of a list of named peaks is a number.
pub open spec fn named_numbers(peaks: Seq<NamedPeak>) -> bool {
    forall|i: int| 0 <= i < peaks.len() ==> !(#[trigger] peaks[i]).1.nan()
}

/// Takes in a list of scores.
fn hold_scores(map: &mut ScoreHold, peaks: &Vec<(usize, Level)>)
    requires
        old(map).wf(),
        numbers(peaks@),
    ensures
        final(map).wf(),
        final(map).entries@ == scores_after(old(map).entries@, peaks@, peaks@.len()),
{
    for i in 0..peaks.len()
        invariant
            map.wf(),
            numbers(peaks@),
            map.entries@ == scores_after(old(map).entries@, peaks@, i as nat),
    {
        max_hold_score(map, peaks[i].0, peaks[i].1);
    }
}

/// Takes in a list of named levels.
fn hold_named(map: &mut NamedHold, peaks: &Vec<NamedPeak>)
    requires
        old(map).wf(),
        named_numbers(peaks@),
    ensures
        final(map).wf(),
        named_peaks(final(map).entries@) == named_after(
            named_peaks(old(map).entries@),
            named_peaks(peaks@),
            peaks@.len(),
        ),
{
    for i in 0..peaks.len()
        invariant
            map.wf(),
            named_numbers(peaks@),
            named_peaks(map.entries@) == named_after(
                named_peaks(old(map).entries@),
                named_peaks(peaks@),
                i as nat,
            ),
    {
        proof {
            let p = peaks@[i as int];
            assert(named_peaks(peaks@)[i as int] == (p.0, p.1, texts(p.2@)));
        }
        max_hold_named(map, peaks[i].0, peaks[i].1, &peaks[i].2);
    }
}

impl Findings {
    /// Every part is well formed.
    pub open spec fn wf(&self) -> bool {
        self.own.wf() && self.group.wf() && self.masking.wf()
    }

    /// Nothing is held.
    pub open spec fn is_empty(&self) -> bool {
        self.own.entries@.len() == 0 && self.group.entries@.len() == 0
            && self.masking.entries@.len() == 0
    }

    /// What is held once the findings of a frame have come.
    pub open spec fn gathered(
        &self,
        before: Findings,
        lists: ResonanceLists,
        masking: Seq<NamedPeak>,
    ) -> bool {
        &&& self.own.entries@ == scores_after(before.own.entries@, lists.own@, lists.own@.len())
        &&& named_peaks(self.group.entries@) == named_after(
            named_peaks(before.group.entries@),
            named_peaks(lists.relay@),
            lists.relay@.len(),
        )
        &&& named_peaks(self.masking.entries@) == named_after(
            named_peaks(before.masking.entries@),
            named_peaks(masking),
            masking.len(),
        )
    }

    /// Nothing held.
    pub fn new() -> (r: Findings)
        ensures
            r.wf(),
            r.is_empty(),
    {
        Findings { own: ScoreHold::new(), group: NamedHold::new(), masking: NamedHold::new() }
    }

    /// Takes in the findings of a frame.
    pub fn gather(&mut self, lists: &ResonanceLists, masking: &Vec<NamedPeak>)
        requires
            old(self).wf(),
            numbers(lists.own@),
            named_numbers(lists.relay@),
            named_numbers(masking@),
        ensures
            final(self).wf(),
            final(self).gathered(*old(self), *lists, masking@),
    {
        hold_scores(&mut self.own, &lists.own);
        hold_named(&mut self.group, &lists.relay);
        hold_named(&mut self.masking, masking);
    }

    /// The findings by falling level, at most `limit` of each sort.
    pub fn by_level(&self, limit: usize) -> (r: RankedFindings)
        requires
            self.wf(),
        ensures
            ranked(self.own.entries@, limit as nat, r.own@),
            named_ranked(self.group.entries@, limit as nat, r.group@),
            named_ranked(self.masking.entries@, limit as nat, r.masking@),
    {
        RankedFindings {
            own: self.own.ranked_entries(limit),
            group: self.group.ranked_entries(limit),
            masking: self.masking.ranked_entries(limit),
        }
    }
}

/// What the editor keeps from tick to tick.
pub struct TickAccum {
    pub ui: LucentUiState,
    /// Held for the panels.
    pub display: Findings,
    /// Held for the next snapshot.
    pub session: Findings,
    /// When the findings of the panels began to be held.
    pub window_start_ms: u64,
    pub vault_path: Option<String>,
    pub setup_visible: bool,
    pub snap_request: bool,
    /// How many ticks the snapshot button still pulses.
    pub snap_blink: u32,
}

/// The relays once the switches shown for the first `n` slots are taken over.
pub open spec fn switches_applied(
    relays: Seq<RelayData>,
    shown: Seq<(u8, bool)>,
    n: nat,
) -> Seq<RelayData>
    decreases n,
{
    if n == 0 {
        relays
    } else {
        let before = switches_applied(relays, shown, (n - 1) as nat);
        match first_in_slot(before, shown[n - 1].0, before.len()) {
            Some(k) => before.update(k, RelayData { active: shown[n - 1].1, ..before[k] }),
            None => before,
        }
    }
}

impl TickAccum {
    /// What is held is well formed.
    pub open spec fn wf(&self) -> bool {
        self.display.wf() && self.session.wf()
    }

    /// Whether the findings of a tick lead from one state to the other: they are held for the
    /// panels and for the next snapshot.
    pub open spec fn gathers(
        before: TickAccum,
        lists: ResonanceLists,
        masking: Seq<NamedPeak>,
        after: TickAccum,
    ) -> bool {
        &&& after.display.gathered(before.display, lists, masking)
        &&& after.session.gathered(before.session, lists, masking)
        &&& after == (TickAccum { display: after.display, session: after.session, ..before })
    }

    /// Whether a look at the clock leads from one state to the other: once the findings were held
    /// long enough the panels list them anew, and what is held for the panels starts again.
    pub open spec fn refreshes(
        before: TickAccum,
        now_ms: u64,
        r: Option<RankedFindings>,
        after: TickAccum,
    ) -> bool {
        &&& r is Some <==> now_ms - before.window_start_ms >= DISPLAY_HOLD_MS
        &&& match r {
            Some(f) => {
                &&& ranked(before.display.own.entries@, PANEL_LINES as nat, f.own@)
                &&& named_ranked(before.display.group.entries@, PANEL_LINES as nat, f.group@)
                &&& named_ranked(before.display.masking.entries@, PANEL_LINES as nat, f.masking@)
                &&& after.display.is_empty()
                &&& after == (TickAccum {
                    display: after.display,
                    window_start_ms: now_ms,
                    ..before
                })
            },
            None => after == before,
        }
    }

    /// Whether the spectra of a tick lead from one state to the other, with `mask` telling the
    /// slots that are switched on.
    pub open spec fn follows<B: Fn(Level, Level) -> Level>(
        blend: B,
        before: TickAccum,
        mode: i64,
        own_spectrum: Option<Vec<Level>>,
        shown: Seq<(u8, bool)>,
        feeds: Seq<(u8, String, Vec<Level>)>,
        mask: u32,
        after: TickAccum,
    ) -> bool {
        &&& after == (TickAccum { ui: after.ui, ..before })
        &&& after.ui.own_spectrum == (match own_spectrum {
            Some(s) => s,
            None => before.ui.own_spectrum,
        })
        &&& mode == 0 ==> after.ui.relays@.len() == 0 && mask == 0
        &&& mode != 0 ==> {
            let switched = switches_applied(before.ui.relays@, shown, shown.len());
            &&& after.ui.relays@.len() == feeds.len()
            &&& forall|i: int|
                0 <= i < feeds.len() ==> fed(
                    blend,
                    switched,
                    feeds[i],
                    #[trigger] after.ui.relays@[i],
                )
            &&& forall|slot: u32|
                slot < 32 ==> (#[trigger] bit(mask, slot) <==> slot_active(
                    after.ui.relays@,
                    slot,
                    after.ui.relays@.len(),
                ))
        }
    }

    /// Whether the end of a tick leads from one state to the other: `r` holds the findings to
    /// save where a snapshot was asked for and there is a folder.
    pub open spec fn ends(before: TickAccum, r: Option<RankedFindings>, after: TickAccum) -> bool {
        &&& after == (TickAccum {
            session: after.session,
            snap_request: false,
            snap_blink: pulse(before.snap_request, before.snap_blink),
            ..before
        })
        &&& r is Some <==> before.snap_request && has_folder(before.vault_path)
        &&& match r {
            Some(f) => {
                &&& ranked(before.session.own.entries@, usize::MAX as nat, f.own@)
                &&& named_ranked(before.session.group.entries@, usize::MAX as nat, f.group@)
                &&& named_ranked(before.session.masking.entries@, usize::MAX as nat, f.masking@)
                &&& after.session.is_empty()
            },
            None => after.session == before.session,
        }
    }

    /// An editor that has seen nothing.
    pub fn new(vault_path: Option<String>, now_ms: u64) -> (r: TickAccum)
        ensures
            r.wf(),
            r.ui.relays@.len() == 0,
            r.ui.own_spectrum@.len() == 0,
            r.display.is_empty(),
            r.session.is_empty(),
            r.window_start_ms == now_ms,
            r.vault_path == vault_path,
            !r.setup_visible,
            !r.snap_request,
            r.snap_blink == 0,
    {
        TickAccum {
            ui: LucentUiState::new(),
            display: Findings::new(),
            session: Findings::new(),
            window_start_ms: now_ms,
            vault_path,
            setup_visible: false,
            snap_request: false,
            snap_blink: 0,
        }
    }

    /// Takes in the findings of a tick, for the panels and for the next snapshot.
    pub fn gather(&mut self, lists: &ResonanceLists, masking: &Vec<NamedPeak>)
        requires
            old(self).wf(),
            numbers(lists.own@),
            named_numbers(lists.relay@),
            named_numbers(masking@),
        ensures
            final(self).wf(),
            Self::gathers(*old(self), *lists, masking@, *final(self)),
    {
        self.display.gather(lists, masking);
        self.session.gather(lists, masking);
    }

    /// The findings that the panels list anew, once they were held long enough; what is held
    /// for the panels then starts again.
    pub fn refresh(&mut self, now_ms: u64) -> (r: Option<RankedFindings>)
        requires
            old(self).wf(),
        ensures
            final(self).wf(),
            Self::refreshes(*old(self), now_ms, r, *final(self)),
    {
        if now_ms < self.window_start_ms || now_ms - self.window_start_ms < DISPLAY_HOLD_MS {
            return None;
        }
        let f: RankedFindings = self.display.by_level(PANEL_LINES);
        self.display = Findings::new();
        self.window_start_ms = now_ms;
        Some(f)
    }

    /// Takes over the switches as the panel shows them: slot and state.
    pub fn apply_switches(&mut self, shown: &Vec<(u8, bool)>)
        requires
            old(self).wf(),
        ensures
            final(self).wf(),
            final(self).ui.relays@ == switches_applied(old(self).ui.relays@, shown@, shown@.len()),
            final(self).ui.own_spectrum == old(self).ui.own_spectrum,
            *final(self) == (TickAccum { ui: final(self).ui, ..*old(self) }),
    {
        for i in 0..shown.len()
            invariant
                self.wf(),
                self.ui.relays@ == switches_applied(old(self).ui.relays@, shown@, i as nat),
                self.ui.own_spectrum == old(self).ui.own_spectrum,
                *self == (TickAccum { ui: self.ui, ..*old(self) }),
        {
            if let Some(k) = self.ui.find_slot(shown[i].0) {
                let on: bool = shown[i].1;
                self.ui.relays[k].active = on;
            }
        }
    }

    /// Takes in the spectra of a tick and gives the mask of the slots that are switched on.
    ///
    /// Without relays (mode 0) there are none; else the switches shown are taken over and the
    /// live feeds replace the relays.  The own spectrum stays where there is no new one.
    pub fn sync<B: Fn(Level, Level) -> Level>(
        &mut self,
        mode: i64,
        own_spectrum: Option<Vec<Level>>,
        shown: &Vec<(u8, bool)>,
        feeds: Vec<(u8, String, Vec<Level>)>,
        blend: B,
    ) -> (mask: u32)
        requires
            old(self).wf(),
            forall|i: int| 0 <= i < feeds@.len() ==> (#[trigger] feeds@[i]).0 < 32,
            forall|p: Level, s: Level| call_requires(blend, (p, s)),
        ensures
            final(self).wf(),
            Self::follows(
                blend,
                *old(self),
                mode,
                own_spectrum,
                shown@,
                feeds@,
                mask,
                *final(self),
            ),
    {
        if let Some(s) = own_spectrum {
            self.ui.own_spectrum = s;
        }
        if mode == 0 {
            self.ui.clear_relays();
            return 0;
        }
        self.apply_switches(shown);
        let ghost before = self.ui.relays@;
        self.ui.sync_relays(feeds, blend);
        proof {
            assert forall|i: int| 0 <= i < self.ui.relays@.len() implies (
            #[trigger] self.ui.relays@[i]).slot < 32 by {
                assert(fed(blend, before, feeds@[i], self.ui.relays@[i]));
            }
        }
        self.ui.relay_active_mask()
    }

    /// The snapshot button: asks for a snapshot, or for a folder where there is none.
    pub fn press_snap(&mut self)
        requires
            old(self).wf(),
        ensures
            final(self).wf(),
            *final(self) == (if has_folder(old(self).vault_path) {
                TickAccum { snap_request: true, ..*old(self) }
            } else {
                TickAccum { setup_visible: true, ..*old(self) }
            }),
    {
        if folder_is_set(&self.vault_path) {
            self.snap_request = true;
        } else {
            self.setup_visible = true;
        }
    }

    /// Ends a tick: gives the findings to save where a snapshot was asked for and there is a
    /// folder; they are then held no longer.  The button pulses on.
    pub fn end_tick(&mut self) -> (r: Option<RankedFindings>)
        requires
            old(self).wf(),
        ensures
            final(self).wf(),
            Self::ends(*old(self), r, *final(self)),
    {
        let mut r: Option<RankedFindings> = None;
        if self.snap_request {
            self.snap_request = false;
            self.snap_blink = SNAP_BLINK_TICKS;
            if folder_is_set(&self.vault_path) {
                r = Some(self.session.by_level(usize::MAX));
                self.session = Findings::new();
            }
        }
        if self.snap_blink > 0 {
            self.snap_blink = self.snap_blink - 1;
        }
        r
    }

    /// Saves the folder that the text names and closes the setup.
    pub fn save_vault_path(&mut self, input: &String)
        requires
            old(self).wf(),
        ensures
            final(self).wf(),
            opt_text(final(self).vault_path) == path_of(input@),
            *final(self) == (TickAccum {
                vault_path: final(self).vault_path,
                setup_visible: false,
                ..*old(self)
            }),
    {
        self.vault_path = vault_path_of(input);
        self.setup_visible = false;
    }
}

/// How many ticks the button pulses after a tick.
pub open spec fn pulse(request: bool, blink: u32) -> u32 {
    let start = if request {
        SNAP_BLINK_TICKS
    } else {
        blink
    };
    if start > 0 {
        (start - 1) as u32
    } else {
        0
    }
}

/// Whether there is a folder to save to.
pub open spec fn has_folder(path: Option<String>) -> bool {
    path is Some && path->0@.len() > 0
}

/// Whether there is a folder to save to.
pub fn folder_is_set(path: &Option<String>) -> (r: bool)
    ensures
        r == has_folder(*path),
{
    match path {
        Some(p) => !p.as_str().is_empty(),
        None => false,
    }
}

/// The relays among the first `n` that are switched on.
pub open spec fn on_relays(relays: Seq<RelayData>, n: nat) -> Seq<RelayData>
    decreases n,
{
    if n == 0 {
        Seq::empty()
    } else {
        let before = on_relays(relays, (n - 1) as nat);
        if relays[n - 1].active {
            before.push(relays[n - 1])
        } else {
            before
        }
    }
}

/// Whether `curves` are the own spectrum and those of the relays.
pub open spec fn panel_curves(
    own: Seq<Level>,
    relays: Seq<RelayData>,
    curves: Seq<Curve>,
) -> bool {
    &&& curves.len() == 1 + relays.len()
    &&& curves[0].spectrum@ == own
    &&& curves[0].color is None
    &&& forall|i: int|
        0 <= i < relays.len() ==> {
            &&& (#[trigger] curves[i + 1]).spectrum@ == relays[i].spectrum@
            &&& curves[i + 1].color == Some((i % RELAY_COLORS as int) as usize)
        }
}

/// The curves of the spectrum view: the own spectrum, and the relays that are switched on
/// unless the mode has none.
pub fn spectrum_curves(own: &Vec<Level>, relays: &Vec<RelayData>, mode: i64) -> (curves: Vec<Curve>)
    ensures
        panel_curves(
            own@,
            if mode == 0 {
                Seq::empty()
            } else {
                on_relays(relays@, relays@.len())
            },
            curves@,
        ),
{
    let mut curves: Vec<Curve> = Vec::new();
    curves.push(Curve { spectrum: copy_levels(own), color: None });
    if mode == 0 {
        return curves;
    }
    let mut shown: usize = 0;
    for i in 0..relays.len()
        invariant
            shown <= i,
            shown == on_relays(relays@, i as nat).len(),
            panel_curves(own@, on_relays(relays@, i as nat), curves@),
    {
        if relays[i].active {
            let ghost before = curves@;
            let ghost was = on_relays(relays@, i as nat);
            curves.push(
                Curve {
                    spectrum: copy_levels(&relays[i].spectrum),
                    color: Some(shown % RELAY_COLORS),
                },
            );
            proof {
                let now = on_relays(relays@, i as nat + 1);
                assert(now == was.push(relays@[i as int]));
                assert forall|k: int| 0 <= k < now.len() implies {
                    &&& (#[trigger] curves@[k + 1]).spectrum@ == now[k].spectrum@
                    &&& curves@[k + 1].color == Some((k % RELAY_COLORS as int) as usize)
                } by {
                    if k < was.len() {
                        assert(curves@[k + 1] == before[k + 1]);
                    }
                }
            }
            shown = shown + 1;
        }
    }
    curves
}

/// Whether the masking is drawn: it is switched on, and there are relays or only relays count.
pub fn shows_masking(switched_on: bool, relays: usize, mode: i64) -> (r: bool)
    ensures
        r == (switched_on && (relays > 0 || mode == 2)),
{
    switched_on && (relays > 0 || mode == 2)
}

proof fn lemma_slots_kept(relays: Seq<RelayData>, shown: Seq<(u8, bool)>, n: nat)
    requires
        n <= shown.len(),
    ensures
        switches_applied(relays, shown, n).len() == relays.len(),
        forall|k: int|
            0 <= k < relays.len() ==> (#[trigger] switches_applied(relays, shown, n)[k]).slot
                == relays[k].slot,
    decreases n,
{
    if n > 0 {
        lemma_slots_kept(relays, shown, (n - 1) as nat);
        let before = switches_applied(relays, shown, (n - 1) as nat);
        lemma_first(before, shown[n - 1].0, before.len());
    }
}

proof fn lemma_first(relays: Seq<RelayData>, slot: u8, n: nat)
    requires
        n <= relays.len(),
    ensures
        match first_in_slot(relays, slot, n) {
            Some(k) => 0 <= k < n && relays[k].slot == slot,
            None => true,
        },
    decreases n,
{
    if n > 0 {
        lemma_first(relays, slot, (n - 1) as nat);
    }
}

proof fn lemma_first_same(a: Seq<RelayData>, b: Seq<RelayData>, slot: u8, n: nat)
    requires
        n <= a.len(),
        a.len() == b.len(),
        forall|k: int| 0 <= k < a.len() ==> (#[trigger] a[k]).slot == b[k].slot,
    ensures
        first_in_slot(a, slot, n) == first_in_slot(b, slot, n),
    decreases n,
{
    if n > 0 {
        lemma_first_same(a, b, slot, (n - 1) as nat);
        assert(a[n - 1].slot == b[n - 1].slot);
    }
}

proof fn lemma_switch_set(
    relays: Seq<RelayData>,
    shown: Seq<(u8, bool)>,
    i: int,
    k: int,
    n: nat,
)
    requires
        0 <= i < n <= shown.len(),
        forall|j: int| i < j < shown.len() ==> (#[trigger] shown[j]).0 != shown[i].0,
        first_in_slot(relays, shown[i].0, relays.len()) == Some(k),
    ensures
        switches_applied(relays, shown, n)[k].active == shown[i].1,
    decreases n,
{
    let before = switches_applied(relays, shown, (n - 1) as nat);
    lemma_slots_kept(relays, shown, (n - 1) as nat);
    lemma_first(relays, shown[i].0, relays.len());
    if i == n - 1 {
        lemma_first_same(before, relays, shown[i].0, relays.len());
    } else {
        lemma_switch_set(relays, shown, i, k, (n - 1) as nat);
        lemma_first(before, shown[n - 1].0, before.len());
        assert(before[k].slot == shown[i].0);
    }
}

/// A switch that the user sets survives the next tick: the relay that is fed in its slot has it.
pub proof fn law_user_switches_survive_a_tick<B: Fn(Level, Level) -> Level>(
    blend: B,
    relays: Seq<RelayData>,
    shown: Seq<(u8, bool)>,
    i: int,
    feed: (u8, String, Vec<Level>),
    r: RelayData,
)
    requires
        0 <= i < shown.len(),
        forall|j: int| i < j < shown.len() ==> (#[trigger] shown[j]).0 != shown[i].0,
        first_in_slot(relays, shown[i].0, relays.len()) is Some,
        feed.0 == shown[i].0,
        fed(blend, switches_applied(relays, shown, shown.len()), feed, r),
    ensures
        r.active == shown[i].1,
{
    let k = first_in_slot(relays, shown[i].0, relays.len())->0;
    let after = switches_applied(relays, shown, shown.len());
    lemma_switch_set(relays, shown, i, k, shown.len());
    lemma_slots_kept(relays, shown, shown.len());
    lemma_first_same(after, relays, shown[i].0, relays.len());
}

} // verus!
