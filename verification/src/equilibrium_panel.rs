//! The panel of Equilibrium: what its parts show, tick by tick, and what its buttons do.

use crate::canvas::{EqSpectrumView, Five};
use crate::equilibrium::ONE_BITS;
use crate::equilibrium_chain::silent_bands;
use crate::equilibrium_editor::{
    is_pink_noise, list_places, load_presets, may_reset_analysis, name_to_save, places,
    preset_file_name, preset_name, press_snap, reads_on, safe_chars, stereo_settings, EqPreset,
    PresetEntry, SnapLamp, Target, TickAction, HALF_BITS, MIN_PROFILE_BITS, OFFSET_MIN_BITS,
};
use crate::equilibrium_params::{
    is_switch, law_reset_turns_off_every_switch, reset_switches, reset_targets, reset_values,
    switches_to_reset, Param,
};
use crate::host::{automate_all, automated_all, Edit, ParamValue};
use crate::level::{Level, SILENCE_BITS};
use crate::lucent_panel::{folder_is_set, has_folder};
use crate::snapshot::SnapState;
use crate::vault::{copy_path, opt_text};
use vstd::prelude::*;
use vstd::string::*;

verus! {

/// The meters that the audio side keeps.
#[derive(Clone, Copy, Debug, PartialEq, Eq, Structural)]
pub struct EqMeters {
    pub correlation: Level,
    pub peak_l: Level,
    pub peak_r: Level,
    pub hold_l: Level,
    pub hold_r: Level,
    pub hold: Level,
    pub balance: Level,
}

/// What the audio side has measured of the bands.
#[derive(Clone, Copy)]
pub struct BandReadings {
    pub band_levels: Five,
    pub listen_levels: Five,
    pub listen_tolerances: Five,
    pub listen_level_min: Five,
    pub listen_level_max: Five,
    pub listen_samples: Level,
}

/// What a tick reads.
#[derive(Clone, Copy)]
pub struct EqFeed {
    pub bands: BandReadings,
    pub meters: EqMeters,
    pub measuring: bool,
    /// The offset that the loudness measurement has found and that was not applied yet.
    pub offset: Level,
    /// The output gain as it is set.
    pub output_gain: Level,
    pub snap_active: bool,
}

/// What the panel shows.
#[derive(Clone, Copy)]
pub struct EqTelemetry {
    pub spectrum: EqSpectrumView,
    pub meters: EqMeters,
    pub measuring: bool,
    pub lamp: SnapLamp,
}

/// What a tick leads to beside what is shown.
#[derive(Clone, Copy, Debug, PartialEq, Eq, Structural)]
pub struct EqOutcome {
    /// What is shown has changed.
    pub changed: bool,
    pub action: TickAction,
    /// The output gain to set, where the loudness changes it.
    pub gain: Option<Level>,
    /// The offset that is left to apply.
    pub offset: Level,
}

/// The bit pattern of `-12.0`, the lowest output gain.
pub const GAIN_MIN_BITS: u32 = 0xc140_0000;

/// The bit pattern of `12.0`, the highest output gain.
pub const GAIN_MAX_BITS: u32 = 0x4140_0000;

/// An output gain held between its ends.
pub open spec fn held_gain(sum: Level) -> Level {
    sum.clamped(Level { bits: GAIN_MIN_BITS }, Level { bits: GAIN_MAX_BITS })
}

/// Applies an offset: `sum` is the output gain with the offset added.  Gives the output gain to
/// set, and the offset that is left, which is none.
pub fn apply_offset(sum: Level) -> (r: (Level, Level))
    ensures
        r.0 == held_gain(sum),
        r.1 == (Level { bits: 0 }),
{
    (
        sum.clamp(Level { bits: GAIN_MIN_BITS }, Level { bits: GAIN_MAX_BITS }),
        Level { bits: 0 },
    )
}

/// Whether an outcome tells what the offset does to the output gain: where it is applied, the sum
/// of both is set, held between its ends, and nothing is left of it.
pub open spec fn offset_applied<A: Fn(Level, Level) -> Level>(
    raise: A,
    feed: EqFeed,
    r: EqOutcome,
) -> bool {
    if r.action.apply_offset {
        &&& r.offset == (Level { bits: 0 })
        &&& exists|sum: Level|
            #![trigger held_gain(sum)]
            call_ensures(raise, (feed.output_gain, feed.offset), sum) && r.gain == Some(
                held_gain(sum),
            )
    } else {
        r.gain is None && r.offset == feed.offset
    }
}

/// What a reset asks for beside the target.
pub struct ResetAll {
    /// The calls that bring every parameter back.
    pub edits: Vec<Edit<Param>>,
    /// The offset of the loudness that is left to apply.
    pub offset: Level,
    /// The analysis of the input starts again.
    pub reset_analysis: bool,
}

/// The panel of Equilibrium.
pub struct EqPanel {
    pub shown: EqTelemetry,
    pub target: Target,
    pub presets: Vec<PresetEntry>,
    pub vault_path: Option<String>,
    pub name_input: String,
    pub show_setup: bool,
    /// Counts the changes after which the list of profiles is drawn anew.
    pub generation: u32,
    /// The tolerances of the built-in profile.
    pub tolerances: Five,
}

/// Whether five levels are the same one.
pub open spec fn five_times(f: Five, v: Level) -> bool {
    forall|i: int| 0 <= i < 5 ==> #[trigger] f@[i] == v
}

/// Whether five numbers equal five others.
pub open spec fn same_five(a: Five, b: Five) -> bool {
    forall|i: int| 0 <= i < 5 ==> (#[trigger] a@[i]).same(b@[i])
}

/// Whether two spectra hold equal numbers.
pub open spec fn same_spectrum(a: EqSpectrumView, b: EqSpectrumView) -> bool {
    &&& same_five(a.band_levels, b.band_levels)
    &&& same_five(a.target_levels, b.target_levels)
    &&& same_five(a.target_tolerances, b.target_tolerances)
    &&& same_five(a.listen_levels, b.listen_levels)
    &&& same_five(a.listen_tolerances, b.listen_tolerances)
    &&& same_five(a.listen_level_min, b.listen_level_min)
    &&& same_five(a.listen_level_max, b.listen_level_max)
    &&& a.listen_samples.same(b.listen_samples)
}

/// Whether two readings of the meters are equal numbers.
pub open spec fn same_meters(a: EqMeters, b: EqMeters) -> bool {
    &&& a.correlation.same(b.correlation)
    &&& a.peak_l.same(b.peak_l)
    &&& a.peak_r.same(b.peak_r)
    &&& a.hold_l.same(b.hold_l)
    &&& a.hold_r.same(b.hold_r)
    &&& a.hold.same(b.hold)
    &&& a.balance.same(b.balance)
}

/// Whether two panels show the same.
pub open spec fn same_shown(a: EqTelemetry, b: EqTelemetry) -> bool {
    &&& same_spectrum(a.spectrum, b.spectrum)
    &&& same_meters(a.meters, b.meters)
    &&& a.measuring == b.measuring
    &&& a.lamp == b.lamp
}

fn five_equal(a: &Five, b: &Five) -> (r: bool)
    ensures
        r == same_five(*a, *b),
{
    for i in 0..5usize
        invariant
            a@.len() == 5,
            b@.len() == 5,
            forall|k: int| 0 <= k < i ==> (#[trigger] a@[k]).same(b@[k]),
    {
        if !a[i].equals(b[i]) {
            return false;
        }
    }
    true
}

fn spectra_equal(a: &EqSpectrumView, b: &EqSpectrumView) -> (r: bool)
    ensures
        r == same_spectrum(*a, *b),
{
    five_equal(&a.band_levels, &b.band_levels) && five_equal(&a.target_levels, &b.target_levels)
        && five_equal(&a.target_tolerances, &b.target_tolerances) && five_equal(
        &a.listen_levels,
        &b.listen_levels,
    ) && five_equal(&a.listen_tolerances, &b.listen_tolerances) && five_equal(
        &a.listen_level_min,
        &b.listen_level_min,
    ) && five_equal(&a.listen_level_max, &b.listen_level_max) && a.listen_samples.equals(
        b.listen_samples,
    )
}

fn meters_equal(a: &EqMeters, b: &EqMeters) -> (r: bool)
    ensures
        r == same_meters(*a, *b),
{
    a.correlation.equals(b.correlation) && a.peak_l.equals(b.peak_l) && a.peak_r.equals(b.peak_r)
        && a.hold_l.equals(b.hold_l) && a.hold_r.equals(b.hold_r) && a.hold.equals(b.hold)
        && a.balance.equals(b.balance)
}

/// The number behind a number, from the start again after the last.
pub open spec fn next_count(n: u32) -> u32 {
    if n == u32::MAX {
        0
    } else {
        (n + 1) as u32
    }
}

fn count_on(n: u32) -> (r: u32)
    ensures
        r == next_count(n),
{
    if n == u32::MAX {
        0
    } else {
        n + 1
    }
}

/// The lamp after a tick.
pub open spec fn lamp_after(lamp: SnapLamp, snap_active: bool) -> SnapLamp {
    SnapLamp {
        snap_active,
        blink_counter: if snap_active {
            next_count(lamp.blink_counter)
        } else {
            0
        },
    }
}

/// The spectrum that is shown of readings and a target.
pub open spec fn spectrum_of(b: BandReadings, t: Target) -> EqSpectrumView {
    EqSpectrumView {
        band_levels: b.band_levels,
        target_levels: t.levels,
        target_tolerances: t.tolerances,
        listen_levels: b.listen_levels,
        listen_tolerances: b.listen_tolerances,
        listen_level_min: b.listen_level_min,
        listen_level_max: b.listen_level_max,
        listen_samples: b.listen_samples,
    }
}

/// What a tick has to show.
pub open spec fn telemetry_of(feed: EqFeed, t: Target, lamp: SnapLamp) -> EqTelemetry {
    EqTelemetry {
        spectrum: spectrum_of(feed.bands, t),
        meters: feed.meters,
        measuring: feed.measuring,
        lamp: lamp_after(lamp, feed.snap_active),
    }
}

/// What a panel shows before its first tick.
pub open spec fn unread(t: EqTelemetry, target: Target) -> bool {
    let silence = Level { bits: SILENCE_BITS };
    let zero = Level { bits: 0 };
    &&& t.spectrum.target_levels == target.levels
    &&& t.spectrum.target_tolerances == target.tolerances
    &&& t.spectrum.listen_samples == zero
    &&& five_times(t.spectrum.band_levels, silence)
    &&& five_times(t.spectrum.listen_levels, silence)
    &&& five_times(t.spectrum.listen_tolerances, zero)
    &&& five_times(t.spectrum.listen_level_min, silence)
    &&& five_times(t.spectrum.listen_level_max, silence)
    &&& t.meters == (EqMeters {
        correlation: Level { bits: ONE_BITS },
        peak_l: silence,
        peak_r: silence,
        hold_l: silence,
        hold_r: silence,
        hold: silence,
        balance: zero,
    })
    &&& !t.measuring
    &&& t.lamp == (SnapLamp { snap_active: false, blink_counter: 0 })
}

impl EqPanel {
    /// The first profile is the built-in one.
    pub open spec fn wf(&self) -> bool {
        self.presets@.len() > 0 && is_pink_noise(self.presets@[0], self.tolerances@)
    }

    /// Whether the profiles are the built-in one and those found.
    pub open spec fn lists(&self, found: Seq<PresetEntry>) -> bool {
        self.wf() && self.presets@.skip(1) == found
    }

    /// The target that the panel starts with: the first profile.
    pub open spec fn start_target(&self) -> Target {
        Target {
            levels: self.presets@[0].preset.bands,
            tolerances: self.presets@[0].preset.tolerances,
            selected: Some(0usize),
        }
    }

    /// A panel with the built-in profile as its target.
    pub fn new(vault_path: Option<String>, found: Vec<PresetEntry>, tolerances: Five) -> (r:
        EqPanel)
        ensures
            r.lists(found@),
            r.tolerances == tolerances,
            r.target == r.start_target(),
            unread(r.shown, r.target),
            r.vault_path == vault_path,
            r.name_input@ == Seq::<char>::empty(),
            !r.show_setup,
            r.generation == 0,
    {
        let presets: Vec<PresetEntry> = load_presets(tolerances, found);
        let s: Level = Level { bits: SILENCE_BITS };
        let z: Level = Level { bits: 0 };
        let silent: Five = [s, s, s, s, s];
        let zeros: Five = [z, z, z, z, z];
        let target: Target = Target {
            levels: presets[0].preset.bands,
            tolerances: presets[0].preset.tolerances,
            selected: Some(0),
        };
        EqPanel {
            shown: EqTelemetry {
                spectrum: EqSpectrumView {
                    band_levels: silent,
                    target_levels: target.levels,
                    target_tolerances: target.tolerances,
                    listen_levels: silent,
                    listen_tolerances: zeros,
                    listen_level_min: silent,
                    listen_level_max: silent,
                    listen_samples: z,
                },
                meters: EqMeters {
                    correlation: Level { bits: ONE_BITS },
                    peak_l: s,
                    peak_r: s,
                    hold_l: s,
                    hold_r: s,
                    hold: s,
                    balance: z,
                },
                measuring: false,
                lamp: SnapLamp { snap_active: false, blink_counter: 0 },
            },
            target,
            presets,
            vault_path,
            name_input: String::new(),
            show_setup: false,
            generation: 0,
            tolerances,
        }
    }

    /// Whether a tick leads from one panel to the other: what was read is shown where it
    /// differs from what is shown, a capture that just ended is written where there is a
    /// folder, and an offset found by the loudness measurement is applied.
    pub open spec fn ticked<A: Fn(Level, Level) -> Level>(
        raise: A,
        before: EqPanel,
        feed: EqFeed,
        r: EqOutcome,
        after: EqPanel,
    ) -> bool {
        let next = telemetry_of(feed, before.target, before.shown.lamp);
        &&& r.changed == !same_shown(next, before.shown)
        &&& r.action.apply_offset == (!feed.measuring && feed.offset.absolute().above(
            Level { bits: OFFSET_MIN_BITS },
        ))
        &&& r.action.write_snapshot == (before.shown.lamp.snap_active && !feed.snap_active
            && has_folder(before.vault_path))
        &&& offset_applied(raise, feed, r)
        &&& after == (EqPanel {
            shown: if r.changed {
                next
            } else {
                before.shown
            },
            ..before
        })
    }

    /// One tick; `raise` adds an offset to a gain.
    pub fn tick<A: Fn(Level, Level) -> Level>(&mut self, feed: &EqFeed, raise: &A) -> (r: EqOutcome)
        requires
            old(self).wf(),
            call_requires(*raise, (feed.output_gain, feed.offset)),
        ensures
            final(self).wf(),
            Self::ticked(*raise, *old(self), *feed, r, *final(self)),
    {
        let mut lamp: SnapLamp = self.shown.lamp;
        let action: TickAction = lamp.tick(
            feed.snap_active,
            feed.measuring,
            feed.offset,
            &self.vault_path,
        );
        let next: EqTelemetry = EqTelemetry {
            spectrum: EqSpectrumView {
                band_levels: feed.bands.band_levels,
                target_levels: self.target.levels,
                target_tolerances: self.target.tolerances,
                listen_levels: feed.bands.listen_levels,
                listen_tolerances: feed.bands.listen_tolerances,
                listen_level_min: feed.bands.listen_level_min,
                listen_level_max: feed.bands.listen_level_max,
                listen_samples: feed.bands.listen_samples,
            },
            meters: feed.meters,
            measuring: feed.measuring,
            lamp,
        };
        let same: bool = spectra_equal(&next.spectrum, &self.shown.spectrum) && meters_equal(
            &next.meters,
            &self.shown.meters,
        ) && next.measuring == self.shown.measuring && next.lamp == self.shown.lamp;
        if !same {
            self.shown = next;
        }
        if action.apply_offset {
            let sum: Level = raise(feed.output_gain, feed.offset);
            let (gain, left): (Level, Level) = apply_offset(sum);
            proof {
                assert(gain == held_gain(sum));
            }
            EqOutcome { changed: !same, action, gain: Some(gain), offset: left }
        } else {
            EqOutcome { changed: !same, action, gain: None, offset: feed.offset }
        }
    }

    /// The snapshot button: starts a capture, or opens the setup where a folder has to be set
    /// first.
    pub fn press_snap(&mut self) -> (r: Option<SnapState>)
        ensures
            r == (if has_folder(old(self).vault_path) {
                Some(SnapState { phase: 1, active: true })
            } else {
                None
            }),
            *final(self) == (EqPanel {
                show_setup: old(self).show_setup || r is None,
                ..*old(self)
            }),
    {
        let r: Option<SnapState> = press_snap(&self.vault_path);
        if r.is_none() {
            self.show_setup = true;
        }
        r
    }

    /// The setup button: opens the setup, or closes it.
    pub fn press_setup(&mut self)
        ensures
            *final(self) == (EqPanel { show_setup: !old(self).show_setup, ..*old(self) }),
    {
        self.show_setup = !self.show_setup;
    }

    /// Leaves the setup without saving.
    pub fn cancel_setup(&mut self)
        ensures
            *final(self) == (EqPanel { show_setup: false, ..*old(self) }),
    {
        self.show_setup = false;
    }

    /// Takes over a folder that was saved, with the profiles found in it, and leaves the setup.
    pub fn folder_saved(&mut self, path: String, found: Vec<PresetEntry>)
        ensures
            final(self).lists(found@),
            *final(self) == (EqPanel {
                vault_path: Some(path),
                presets: final(self).presets,
                generation: next_count(old(self).generation),
                show_setup: false,
                ..*old(self)
            }),
    {
        self.presets = load_presets(self.tolerances, found);
        self.vault_path = Some(path);
        self.generation = count_on(self.generation);
        self.show_setup = false;
    }

    /// Chooses the profile at a place as the target; gives what it sets, or nothing where there
    /// is none.
    pub fn pick(&mut self, index: usize) -> (r: Option<Vec<(Param, Level)>>)
        requires
            old(self).wf(),
        ensures
            final(self).wf(),
            r is Some <==> index < old(self).presets@.len(),
            match r {
                Some(settings) => {
                    let p = old(self).presets@[index as int].preset;
                    &&& settings@ == stereo_settings(p)
                    &&& *final(self) == (EqPanel {
                        target: Target {
                            levels: p.bands,
                            tolerances: p.tolerances,
                            selected: Some(index),
                        },
                        generation: next_count(old(self).generation),
                        ..*old(self)
                    })
                },
                None => *final(self) == *old(self),
            },
    {
        let r: Option<Vec<(Param, Level)>> = self.target.select(&self.presets, index);
        if r.is_some() {
            self.generation = count_on(self.generation);
        }
        r
    }

    /// Takes what was listened to as the target, where listening is on and enough of it is
    /// shown; true where it was taken.
    pub fn apply_analysis(&mut self, listen: Level) -> (taken: bool)
        requires
            old(self).wf(),
        ensures
            final(self).wf(),
            taken == (reads_on(listen) && old(self).shown.spectrum.listen_samples.above(
                Level { bits: MIN_PROFILE_BITS },
            )),
            *final(self) == (if taken {
                EqPanel {
                    target: Target {
                        levels: old(self).shown.spectrum.listen_levels,
                        tolerances: old(self).shown.spectrum.listen_tolerances,
                        ..old(self).target
                    },
                    ..*old(self)
                }
            } else {
                *old(self)
            }),
    {
        let s: EqSpectrumView = self.shown.spectrum;
        self.target.apply_analysis(listen, s.listen_samples, s.listen_levels, s.listen_tolerances)
    }

    /// Brings the target back to the built-in profile; gives the calls that bring every
    /// parameter back, drops the offset of the loudness and asks for a new analysis.
    pub fn reset_all(&mut self) -> (r: ResetAll)
        requires
            old(self).wf(),
        ensures
            final(self).wf(),
            r.edits@ == automated_all(reset_changes()),
            r.offset == (Level { bits: 0 }),
            r.reset_analysis,
            *final(self) == (EqPanel {
                target: old(self).start_target(),
                generation: next_count(old(self).generation),
                ..*old(self)
            }),
    {
        self.target.reset(&self.presets, self.tolerances);
        self.generation = count_on(self.generation);
        ResetAll { edits: reset_edits(), offset: Level { bits: 0 }, reset_analysis: true }
    }
}

/// What a reset changes: every number, and every switch to off.
pub open spec fn reset_changes() -> Seq<(Param, ParamValue)> {
    reset_targets().map_values(|t: (Param, int)| (t.0, ParamValue::Choice(t.1 as i32)))
        + reset_switches().map_values(|p: Param| (p, ParamValue::Switch(false)))
}

/// The calls that bring every parameter back.
pub fn reset_edits() -> (r: Vec<Edit<Param>>)
    ensures
        r@ == automated_all(reset_changes()),
{
    let values: Vec<(Param, i32)> = reset_values();
    let switches: Vec<Param> = switches_to_reset();
    let mut list: Vec<(Param, ParamValue)> = Vec::new();
    for i in 0..values.len()
        invariant
            values@.len() == reset_targets().len(),
            forall|k: int|
                0 <= k < values@.len() ==> (#[trigger] values@[k]).0 == reset_targets()[k].0
                    && values@[k].1 == reset_targets()[k].1,
            list@ == reset_changes().take(i as int),
    {
        list.push((values[i].0, ParamValue::Choice(values[i].1)));
        proof {
            let all = reset_changes();
            assert(all[i as int] == (values@[i as int].0, ParamValue::Choice(values@[i as int].1)));
            assert(all.take(i as int + 1) =~= all.take(i as int).push(all[i as int]));
        }
    }
    let n: usize = values.len();
    for i in 0..switches.len()
        invariant
            n == reset_targets().len(),
            switches@ == reset_switches(),
            list@ == reset_changes().take(n + i),
    {
        list.push((switches[i], ParamValue::Switch(false)));
        proof {
            let all = reset_changes();
            assert(all[n + i] == (switches@[i as int], ParamValue::Switch(false)));
            assert(all.take(n + i + 1) =~= all.take(n + i).push(all[n + i]));
        }
    }
    proof {
        assert(reset_changes().take(reset_changes().len() as int) =~= reset_changes());
    }
    automate_all(&list)
}

/// The stereo settings that a saved profile takes over.
#[derive(Clone, Copy)]
pub struct StereoSettings {
    pub pans: Five,
    pub widths: Five,
    pub mono_floor_hz: Level,
}

/// A profile to save.
pub struct ProfileToSave {
    pub name: String,
    /// The file that it is saved in.
    pub file: String,
    /// The folder that was set; `None` where the folder of the plugin serves.
    pub folder: Option<String>,
    pub preset: EqPreset,
}

/// A line of the list of profiles.
pub struct PresetRow {
    pub index: usize,
    pub label: String,
    pub selected: bool,
}

/// The list of profiles.
pub struct PresetList {
    /// Whether a folder has to be set first.
    pub asks_folder: bool,
    pub factory: Vec<PresetRow>,
    pub saved: Vec<PresetRow>,
}

/// Whether lines show the profiles at places.
pub open spec fn rows_at(
    entries: Seq<PresetEntry>,
    at: Seq<usize>,
    selected: Option<usize>,
    rows: Seq<PresetRow>,
) -> bool {
    &&& rows.len() == at.len()
    &&& forall|i: int|
        0 <= i < rows.len() ==> {
            &&& (#[trigger] rows[i]).index == at[i]
            &&& rows[i].label@ == "> "@ + entries[at[i] as int].name@
            &&& rows[i].selected == (selected == Some(at[i]))
        }
}

proof fn lemma_places_lie_inside(entries: Seq<PresetEntry>, saved: bool, n: nat)
    requires
        n <= entries.len() <= usize::MAX,
    ensures
        forall|i: int|
            0 <= i < places(entries, saved, n).len() ==> (#[trigger] places(
                entries,
                saved,
                n,
            )[i]) < n,
    decreases n,
{
    if n > 0 {
        lemma_places_lie_inside(entries, saved, (n - 1) as nat);
        let before = places(entries, saved, (n - 1) as nat);
        let all = places(entries, saved, n);
        assert forall|i: int| 0 <= i < all.len() implies (#[trigger] all[i]) < n by {
            if i < before.len() {
                assert(all[i] == before[i]);
            }
        }
    }
}

fn list_rows(entries: &Vec<PresetEntry>, saved: bool, selected: Option<usize>) -> (r: Vec<
    PresetRow,
>)
    ensures
        rows_at(entries@, places(entries@, saved, entries@.len()), selected, r@),
{
    let at: Vec<usize> = list_places(entries, saved);
    let n: usize = entries.len();
    proof {
        lemma_places_lie_inside(entries@, saved, n as nat);
    }
    let mut r: Vec<PresetRow> = Vec::new();
    for i in 0..at.len()
        invariant
            forall|k: int| 0 <= k < at@.len() ==> (#[trigger] at@[k]) < entries@.len(),
            rows_at(entries@, at@.take(i as int), selected, r@),
    {
        let index: usize = at[i];
        let mut label: String = "> ".to_owned();
        label.append(entries[index].name.as_str());
        let chosen: bool = match selected {
            Some(s) => s == index,
            None => false,
        };
        r.push(PresetRow { index, label, selected: chosen });
        proof {
            assert(at@.take(i as int + 1) =~= at@.take(i as int).push(at@[i as int]));
        }
    }
    proof {
        assert(at@.take(at@.len() as int) =~= at@);
    }
    r
}

impl EqPanel {
    /// The list of profiles: the built-in ones, and those that have a file.
    pub fn preset_list(&self) -> (r: PresetList)
        ensures
            r.asks_folder == !has_folder(self.vault_path),
            rows_at(
                self.presets@,
                places(self.presets@, false, self.presets@.len()),
                self.target.selected,
                r.factory@,
            ),
            rows_at(
                self.presets@,
                places(self.presets@, true, self.presets@.len()),
                self.target.selected,
                r.saved@,
            ),
    {
        PresetList {
            asks_folder: !folder_is_set(&self.vault_path),
            factory: list_rows(&self.presets, false, self.target.selected),
            saved: list_rows(&self.presets, true, self.target.selected),
        }
    }

    /// The profile to save: the target that is shown, with the given stereo settings.
    pub fn profile_to_save(&self, s: &StereoSettings) -> (r: ProfileToSave)
        requires
            self.presets@.len() < usize::MAX,
        ensures
            r.name@ == name_to_save(self.name_input@, self.presets@.len()),
            r.file@ == safe_chars(r.name@) + ".md"@,
            opt_text(r.folder) == (if has_folder(self.vault_path) {
                Some(self.vault_path->0@)
            } else {
                None
            }),
            r.preset == (EqPreset {
                bands: self.shown.spectrum.target_levels,
                tolerances: self.shown.spectrum.target_tolerances,
                pans: s.pans,
                widths: s.widths,
                mono_floor_hz: s.mono_floor_hz,
            }),
    {
        let name: String = preset_name(&self.name_input, self.presets.len());
        let file: String = preset_file_name(&name);
        ProfileToSave {
            name,
            file,
            folder: if folder_is_set(&self.vault_path) {
                copy_path(&self.vault_path)
            } else {
                None
            },
            preset: EqPreset {
                bands: self.shown.spectrum.target_levels,
                tolerances: self.shown.spectrum.target_tolerances,
                pans: s.pans,
                widths: s.widths,
                mono_floor_hz: s.mono_floor_hz,
            },
        }
    }

    /// Takes over the profiles found after one was saved, and clears its name.
    pub fn profile_saved(&mut self, found: Vec<PresetEntry>)
        ensures
            final(self).lists(found@),
            final(self).name_input@ == Seq::<char>::empty(),
            *final(self) == (EqPanel {
                presets: final(self).presets,
                name_input: final(self).name_input,
                generation: next_count(old(self).generation),
                ..*old(self)
            }),
    {
        self.presets = load_presets(self.tolerances, found);
        self.name_input = String::new();
        self.generation = count_on(self.generation);
    }
}

/// How the button for the loudness is drawn.
#[derive(Clone, Copy, Debug, PartialEq, Eq, Structural)]
pub enum LoudButton {
    /// It does nothing while the pre-master is on.
    Locked,
    Measuring,
    /// An offset waits to be applied.
    Active,
    Idle,
}

/// How the button for the loudness is drawn.
pub fn loud_button(pre_master: Level, measuring: bool, offset: Level) -> (r: LoudButton)
    ensures
        r == (if pre_master.above(Level { bits: HALF_BITS }) {
            LoudButton::Locked
        } else if measuring {
            LoudButton::Measuring
        } else if offset.absolute().above(Level { bits: OFFSET_MIN_BITS }) {
            LoudButton::Active
        } else {
            LoudButton::Idle
        }),
{
    if pre_master.gt(Level { bits: HALF_BITS }) {
        LoudButton::Locked
    } else if measuring {
        LoudButton::Measuring
    } else if offset.abs().gt(Level { bits: OFFSET_MIN_BITS }) {
        LoudButton::Active
    } else {
        LoudButton::Idle
    }
}

/// Whether the button for the loudness starts a measurement: not while the pre-master is on.
pub fn press_loud(pre_master: Level) -> (r: bool)
    ensures
        r == !pre_master.above(Level { bits: HALF_BITS }),
{
    !pre_master.gt(Level { bits: HALF_BITS })
}

/// The label of a switch that tells its state.
pub fn switch_label(value: Level, off: &str, on: &str) -> (r: String)
    ensures
        r@ == (if value.above(Level { bits: HALF_BITS }) {
            on@
        } else {
            off@
        }),
{
    if value.gt(Level { bits: HALF_BITS }) {
        on.to_owned()
    } else {
        off.to_owned()
    }
}

/// What was listened to, as a new analysis starts with it.
#[derive(Clone, Copy)]
pub struct FreshAnalysis {
    pub samples: Level,
    pub levels: Five,
    pub tolerances: Five,
}

/// Starts the analysis again, where listening is on.
pub fn reset_analysis(listen: Level) -> (r: Option<FreshAnalysis>)
    ensures
        r is Some <==> reads_on(listen),
        match r {
            Some(a) => {
                &&& a.samples == (Level { bits: 0 })
                &&& five_times(a.levels, Level { bits: SILENCE_BITS })
                &&& five_times(a.tolerances, Level { bits: 0 })
            },
            None => true,
        },
{
    if may_reset_analysis(listen) {
        let z: Level = Level { bits: 0 };
        Some(FreshAnalysis { samples: z, levels: silent_bands(), tolerances: [z, z, z, z, z] })
    } else {
        None
    }
}

/// What is saved after a tick is the target, whatever the gains are set to.
pub proof fn law_a_saved_profile_is_the_target<A: Fn(Level, Level) -> Level>(
    raise: A,
    before: EqPanel,
    feed: EqFeed,
    r: EqOutcome,
    after: EqPanel,
    b: int,
)
    requires
        EqPanel::ticked(raise, before, feed, r, after),
        0 <= b < 5,
    ensures
        ({
            let shown = after.shown.spectrum;
            let target = before.target;
            &&& shown.target_levels@[b] == target.levels@[b] || shown.target_levels@[b].same(
                target.levels@[b],
            )
            &&& shown.target_tolerances@[b] == target.tolerances@[b]
                || shown.target_tolerances@[b].same(target.tolerances@[b])
        }),
{
    if !r.changed {
        assert(before.target.levels@[b].same(before.shown.spectrum.target_levels@[b]));
        assert(before.target.tolerances@[b].same(before.shown.spectrum.target_tolerances@[b]));
    }
}

/// Ticks that read the same numbers show nothing new: the second one changes nothing.
pub proof fn law_equal_ticks_change_nothing<A: Fn(Level, Level) -> Level>(
    raise: A,
    before: EqPanel,
    feed: EqFeed,
    r: EqOutcome,
    between: EqPanel,
    s: EqOutcome,
    after: EqPanel,
)
    requires
        EqPanel::ticked(raise, before, feed, r, between),
        EqPanel::ticked(raise, between, feed, s, after),
        !feed.snap_active,
        numbers_only(feed, before.target),
    ensures
        !s.changed,
        !s.action.write_snapshot,
        after == between,
{
}

/// An offset is used once: a tick that reads what an applied offset has left sets no gain.
pub proof fn law_an_offset_is_used_once<A: Fn(Level, Level) -> Level>(
    raise: A,
    before: EqPanel,
    feed: EqFeed,
    r: EqOutcome,
    between: EqPanel,
    next_feed: EqFeed,
    s: EqOutcome,
    after: EqPanel,
)
    requires
        EqPanel::ticked(raise, before, feed, r, between),
        EqPanel::ticked(raise, between, next_feed, s, after),
        r.action.apply_offset,
        next_feed.offset == r.offset,
    ensures
        r.gain is Some,
        s.gain is None,
        s.offset == (Level { bits: 0 }),
{
}

/// Whether all that a tick reads are numbers.
pub open spec fn numbers_only(feed: EqFeed, t: Target) -> bool {
    let z = spectrum_of(feed.bands, t);
    same_spectrum(z, z) && same_meters(feed.meters, feed.meters)
}

/// A reset turns every switch off.
pub proof fn law_a_reset_leaves_no_switch_on(p: Param)
    requires
        is_switch(p),
    ensures
        reset_changes().contains((p, ParamValue::Switch(false))),
{
    law_reset_turns_off_every_switch(p);
    let i = choose|i: int| 0 <= i < reset_switches().len() && reset_switches()[i] == p;
    assert(reset_changes()[reset_targets().len() + i] == (p, ParamValue::Switch(false)));
}

/// A reset brings back the target that the panel starts with, whatever was chosen between.
pub proof fn law_a_reset_goes_back_to_the_start(first: EqPanel, later: EqPanel)
    requires
        first.wf(),
        later.wf(),
        first.tolerances == later.tolerances,
    ensures
        later.start_target().levels@ == first.start_target().levels@,
        later.start_target().tolerances@ == first.start_target().tolerances@,
        later.start_target().selected == first.start_target().selected,
{
}

} // verus!
