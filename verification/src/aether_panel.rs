//! The panel of Aether: the input meter, the response curve, and the list of presets, which
//! follows the preset folder.

use crate::aether_library::{
    built_in, default_presets, entries, find_entry, find_listed, find_profile, found, is_built_in,
    law_built_in_presets_need_no_folder, names_of, offered, opt_profile, place_of, EntryModel,
    PendingModel, PendingPresets, PresetEntry, B1,
};
use crate::aether_params::{profile_at, profile_from_params, AetherParams};
use crate::aether_preset::{AetherProfile, Band, ProfileModel};
use crate::level::{Level, SILENCE_BITS};
use crate::masking::copy_names;
use crate::text::{
    first_place, lemma_first_place, lemma_first_place_stays, list_has, names_equal, texts,
};
use crate::vault::{copy_path, opt_text, path_of, path_or_empty, text_or_empty, vault_path_of};
use vstd::prelude::*;
use vstd::string::*;

verus! {

/// How many ticks a held input peak stays before it falls.
pub const INPUT_HOLD_TICKS: u32 = 90;

/// The held input peak and how many ticks it still stays.
#[derive(Clone, Copy, Debug, PartialEq, Eq, Structural)]
pub struct InputHold {
    pub level: Level,
    pub ticks: u32,
}

/// Whether `after` is the held peak behind a tick with the peak `in_peak`: a higher peak is held
/// anew, else the held one stays for its time and falls then, though not below the peak.
pub open spec fn hold_ticked<D: Fn(Level) -> Level>(
    before: InputHold,
    in_peak: Level,
    decay: D,
    after: InputHold,
) -> bool {
    if in_peak.above(before.level) {
        after == (InputHold { level: in_peak, ticks: INPUT_HOLD_TICKS })
    } else if before.ticks > 0 {
        after == (InputHold { level: before.level, ticks: (before.ticks - 1) as u32 })
    } else {
        exists|d: Level| #[trigger]
            call_ensures(decay, (before.level,), d) && after == (InputHold {
                level: d.larger(in_peak),
                ticks: 0,
            })
    }
}

impl InputHold {
    /// Nothing is held.
    pub fn new() -> (r: InputHold)
        ensures
            r == (InputHold { level: Level { bits: SILENCE_BITS }, ticks: 0 }),
    {
        InputHold { level: Level { bits: SILENCE_BITS }, ticks: 0 }
    }

    /// One tick; `decay` gives how far a level falls in one.
    pub fn tick<D: Fn(Level) -> Level>(&mut self, in_peak: Level, decay: D)
        requires
            forall|l: Level| call_requires(decay, (l,)),
        ensures
            hold_ticked(*old(self), in_peak, decay, *final(self)),
    {
        if in_peak.gt(self.level) {
            self.level = in_peak;
            self.ticks = INPUT_HOLD_TICKS;
        } else if self.ticks > 0 {
            self.ticks = self.ticks - 1;
        } else {
            let d: Level = decay(self.level);
            self.level = d.max(in_peak);
        }
    }
}

/// The held peak is never below the peak.
pub proof fn law_the_hold_covers_the_peak<D: Fn(Level) -> Level>(
    before: InputHold,
    in_peak: Level,
    decay: D,
    after: InputHold,
)
    requires
        hold_ticked(before, in_peak, decay, after),
        !in_peak.nan(),
        !before.level.nan(),
    ensures
        after.level.at_least(in_peak),
{
}

/// What the response curve depends on: the sample rate and the bands.
#[derive(Clone, Copy)]
pub struct EqCurveKey {
    pub sr: Level,
    pub bands: [Band; 5],
}

/// Whether two bands are the same.
pub open spec fn same_band(a: Band, b: Band) -> bool {
    a.0 == b.0 && a.1.same(b.1) && a.2.same(b.2) && a.3.same(b.3)
}

/// Whether two curves are the same.
pub open spec fn same_key(a: EqCurveKey, b: EqCurveKey) -> bool {
    a.sr.same(b.sr) && forall|i: int| 0 <= i < 5 ==> same_band(#[trigger] a.bands@[i], b.bands@[i])
}

fn band_equals(a: Band, b: Band) -> (r: bool)
    ensures
        r == same_band(a, b),
{
    a.0 == b.0 && a.1.equals(b.1) && a.2.equals(b.2) && a.3.equals(b.3)
}

impl EqCurveKey {
    /// Whether two curves are the same.
    pub fn equals(&self, other: &EqCurveKey) -> (r: bool)
        ensures
            r == same_key(*self, *other),
    {
        if !self.sr.equals(other.sr) {
            return false;
        }
        for i in 0..5usize
            invariant
                self.bands@.len() == 5,
                other.bands@.len() == 5,
                forall|k: int| 0 <= k < i ==> same_band(#[trigger] self.bands@[k], other.bands@[k]),
        {
            if !band_equals(self.bands[i], other.bands[i]) {
                return false;
            }
        }
        true
    }
}

/// The curve at the parameters; the sample rate is at least 1.
pub open spec fn key_of_params(params: AetherParams, sr: Level) -> EqCurveKey {
    EqCurveKey { sr: sr.larger(Level { bits: B1 }), bands: params.bands }
}

/// The curve at the parameters.
pub fn curve_key(params: &AetherParams, sr: Level) -> (r: EqCurveKey)
    ensures
        r == key_of_params(*params, sr),
{
    EqCurveKey { sr: sr.max(Level { bits: B1 }), bands: params.bands }
}

/// What the panel shows.
pub struct Telemetry {
    pub curve_points: Vec<(Level, Level)>,
    pub in_peak: Level,
    pub in_peak_hold: Level,
    pub preset_names: Vec<String>,
}

/// Whether two curves have the same points.
pub open spec fn same_points(a: Seq<(Level, Level)>, b: Seq<(Level, Level)>) -> bool {
    a.len() == b.len() && forall|i: int|
        0 <= i < a.len() ==> (#[trigger] a[i]).0.same(b[i].0) && a[i].1.same(b[i].1)
}

fn points_equal(a: &Vec<(Level, Level)>, b: &Vec<(Level, Level)>) -> (r: bool)
    ensures
        r == same_points(a@, b@),
{
    if a.len() != b.len() {
        return false;
    }
    for i in 0..a.len()
        invariant
            a.len() == b.len(),
            forall|k: int|
                0 <= k < i ==> (#[trigger] a@[k]).0.same(b@[k].0) && a@[k].1.same(b@[k].1),
    {
        if !a[i].0.equals(b[i].0) || !a[i].1.equals(b[i].1) {
            return false;
        }
    }
    true
}

/// A folder to scan, and the number of the scan.
pub struct ScanRequest {
    pub folder: String,
    pub generation: u32,
}

/// What the panel asks for after a tick.
pub struct TickReply {
    pub scan: Option<ScanRequest>,
    pub changed: bool,
}

/// Where a preset is to be saved: the folder, none for the plugin's own, and the file.
pub struct SaveTarget {
    pub folder: Option<String>,
    pub file: String,
}

/// The panel of Aether.
pub struct AetherPanel {
    pub hold: InputHold,
    /// The folder whose presets are listed.
    pub last_vault_path: Option<String>,
    pub eq_curve_key: Option<EqCurveKey>,
    pub telemetry: Telemetry,
    /// The folder that the user set.
    pub vault_path: Option<String>,
    pub vault_path_input: String,
    pub show_setup: bool,
    /// The names on offer.
    pub preset_opts: Vec<String>,
    /// The name in the name field.
    pub preset_name: String,
    pub pending: PendingPresets,
    /// The presets of the folder.
    pub cache: Vec<PresetEntry>,
}

/// What a request asks for.
pub open spec fn request_of(r: Option<ScanRequest>) -> Option<(Seq<char>, u32)> {
    match r {
        Some(q) => Some((q.folder@, q.generation)),
        None => None,
    }
}

/// The scan of a folder, if there is one.
pub open spec fn scan_for(folder: Option<String>, generation: u32) -> Option<(Seq<char>, u32)> {
    match folder {
        Some(f) => Some((f@, generation)),
        None => None,
    }
}

/// A list of presets with one more, in the place of one of the same name.
pub open spec fn saved_in(list: Seq<EntryModel>, e: EntryModel) -> Seq<EntryModel> {
    match place_of(list, e.name) {
        Some(k) => list.update(k, e),
        None => list.push(e),
    }
}

/// A list of names with one more, unless it is there.
pub open spec fn named_in(list: Seq<Seq<char>>, name: Seq<char>) -> Seq<Seq<char>> {
    if list.contains(name) {
        list
    } else {
        list.push(name)
    }
}

/// The names of the presets that are there without a folder.
fn default_names() -> (r: Vec<String>)
    ensures
        texts(r@) == names_of(built_in()),
{
    let list: Vec<PresetEntry> = default_presets();
    entry_names(&list)
}

/// The names of a list of presets.
pub fn entry_names(list: &Vec<PresetEntry>) -> (r: Vec<String>)
    ensures
        texts(r@) == names_of(entries(list@)),
{
    let mut r: Vec<String> = Vec::new();
    push_names(&mut r, list);
    proof {
        assert(texts(r@) =~= names_of(entries(list@)));
    }
    r
}

fn push_names(names: &mut Vec<String>, list: &Vec<PresetEntry>)
    ensures
        texts(final(names)@) == texts(old(names)@) + names_of(entries(list@)),
{
    let ghost before = texts(names@);
    let ghost all = names_of(entries(list@));
    for i in 0..list.len()
        invariant
            all == names_of(entries(list@)),
            texts(names@) == before + all.take(i as int),
    {
        let ghost so_far = names@;
        let name: String = list[i].name.clone();
        names.push(name);
        proof {
            assert(texts(names@) =~= texts(so_far).push(name@));
            assert(all.take(i as int + 1) =~= all.take(i as int).push(all[i as int]));
        }
    }
    proof {
        assert(all.take(list@.len() as int) =~= all);
    }
}

impl AetherPanel {
    /// A panel on the configured folder and the last preset; also the scan to start.
    pub fn new(vault_path: Option<String>, last_preset: Option<String>) -> (r: (
        AetherPanel,
        Option<ScanRequest>,
    ))
        ensures
            r.0.hold == (InputHold { level: Level { bits: SILENCE_BITS }, ticks: 0 }),
            opt_text(r.0.last_vault_path) == opt_text(vault_path),
            opt_text(r.0.vault_path) == opt_text(vault_path),
            r.0.vault_path_input@ == text_or_empty(vault_path),
            r.0.eq_curve_key is None,
            !r.0.show_setup,
            texts(r.0.preset_opts@) == names_of(built_in()),
            texts(r.0.telemetry.preset_names@) == names_of(built_in()),
            r.0.telemetry.curve_points@.len() == 0,
            r.0.telemetry.in_peak == (Level { bits: SILENCE_BITS }),
            r.0.telemetry.in_peak_hold == (Level { bits: SILENCE_BITS }),
            r.0.preset_name@ == text_or_empty(last_preset),
            r.0.pending@ == (PendingModel { ready: false, generation: 1, presets: None }),
            r.0.cache@.len() == 0,
            request_of(r.1) == scan_for(vault_path, 1),
    {
        let panel: AetherPanel = AetherPanel {
            hold: InputHold::new(),
            last_vault_path: copy_path(&vault_path),
            eq_curve_key: None,
            telemetry: Telemetry {
                curve_points: Vec::new(),
                in_peak: Level { bits: SILENCE_BITS },
                in_peak_hold: Level { bits: SILENCE_BITS },
                preset_names: default_names(),
            },
            vault_path: copy_path(&vault_path),
            vault_path_input: path_or_empty(&vault_path),
            show_setup: false,
            preset_opts: default_names(),
            preset_name: path_or_empty(&last_preset),
            pending: PendingPresets::new(),
            cache: Vec::new(),
        };
        let scan: Option<ScanRequest> = match vault_path {
            Some(folder) => Some(ScanRequest { folder, generation: 1 }),
            None => None,
        };
        (panel, scan)
    }

    /// Whether other names are listed in the second panel than in the first.
    pub open spec fn renamed(before: AetherPanel, after: AetherPanel) -> bool {
        texts(after.telemetry.preset_names@) != texts(before.telemetry.preset_names@)
    }

    /// After a look at the folder: where it has changed, scans under way are called off, and the
    /// new folder is to be scanned; without a folder only the built-in preset is left.
    pub open spec fn watched(before: AetherPanel, after: AetherPanel, scan: Option<ScanRequest>) -> bool {
        if opt_text(before.last_vault_path) == opt_text(before.vault_path) {
            after == before && scan is None
        } else {
            &&& opt_text(after.last_vault_path) == opt_text(before.vault_path)
            &&& after.pending@ == before.pending@.bumped()
            &&& request_of(scan) == scan_for(before.vault_path, before.pending@.next())
            &&& if before.vault_path is Some {
                &&& after.preset_opts == before.preset_opts
                &&& after.cache == before.cache
                &&& after.telemetry == before.telemetry
            } else {
                &&& texts(after.preset_opts@) == names_of(built_in())
                &&& texts(after.telemetry.preset_names@) == names_of(built_in())
                &&& after.cache@.len() == 0
                &&& after.telemetry == (Telemetry {
                    preset_names: after.telemetry.preset_names,
                    ..before.telemetry
                })
            }
            &&& after == (AetherPanel {
                last_vault_path: after.last_vault_path,
                pending: after.pending,
                preset_opts: after.preset_opts,
                cache: after.cache,
                telemetry: after.telemetry,
                ..before
            })
        }
    }

    /// Looks whether the folder has changed; `changed` tells whether other names are listed then.
    pub fn watch_vault(&mut self) -> (r: TickReply)
        ensures
            Self::watched(*old(self), *final(self), r.scan),
            r.changed == Self::renamed(*old(self), *final(self)),
    {
        let changed: bool = match (&self.last_vault_path, &self.vault_path) {
            (Some(a), Some(b)) => *a != *b,
            (None, None) => false,
            _ => true,
        };
        if !changed {
            return TickReply { scan: None, changed: false };
        }
        self.last_vault_path = copy_path(&self.vault_path);
        let generation: u32 = self.pending.bump_generation();
        match &self.vault_path {
            Some(folder) => {
                let scan: Option<ScanRequest> = Some(
                    ScanRequest { folder: folder.clone(), generation },
                );
                TickReply { scan, changed: false }
            },
            None => {
                let names: Vec<String> = default_names();
                let renamed: bool = !names_equal(&names, &self.telemetry.preset_names);
                self.preset_opts = default_names();
                self.telemetry.preset_names = names;
                self.cache = Vec::new();
                TickReply { scan: None, changed: renamed }
            },
        }
    }

    /// After a look for scanned presets.
    pub open spec fn taken(before: AetherPanel, after: AetherPanel) -> bool {
        &&& after.pending@ == before.pending@.drained()
        &&& match before.pending@.arrived() {
            Some(list) => {
                &&& entries(after.cache@) == list
                &&& texts(after.preset_opts@) == offered(list)
                &&& texts(after.telemetry.preset_names@) == offered(list)
            },
            None => {
                &&& after.cache == before.cache
                &&& after.preset_opts == before.preset_opts
                &&& after.telemetry == before.telemetry
            },
        }
        &&& after.telemetry == (Telemetry {
            preset_names: after.telemetry.preset_names,
            ..before.telemetry
        })
        &&& after == (AetherPanel {
            pending: after.pending,
            cache: after.cache,
            preset_opts: after.preset_opts,
            telemetry: after.telemetry,
            ..before
        })
    }

    /// Takes over the presets of a finished scan; true where other names are listed then.
    pub fn apply_scanned_presets(&mut self) -> (changed: bool)
        ensures
            Self::taken(*old(self), *final(self)),
            changed == Self::renamed(*old(self), *final(self)),
    {
        match self.pending.drain() {
            Some(list) => {
                let mut names: Vec<String> = default_names();
                push_names(&mut names, &list);
                proof {
                    assert(names_of(built_in()) + names_of(entries(list@)) =~= offered(
                        entries(list@),
                    ));
                }
                let renamed: bool = !names_equal(&names, &self.telemetry.preset_names);
                self.telemetry.preset_names = copy_names(&names);
                self.preset_opts = names;
                self.cache = list;
                renamed
            },
            None => false,
        }
    }

    /// After the curve and the meter were brought up to date: `points` is the curve, and the panel
    /// is told only what has changed.
    pub open spec fn refreshed(
        before: AetherPanel,
        in_peak: Level,
        key: EqCurveKey,
        points: Seq<(Level, Level)>,
        after: AetherPanel,
        changed: bool,
    ) -> bool {
        let known = before.eq_curve_key is Some && same_key(before.eq_curve_key->0, key);
        let shown = before.telemetry;
        &&& known ==> points == shown.curve_points@
        &&& changed == !(same_points(points, shown.curve_points@) && in_peak.same(shown.in_peak)
            && before.hold.level.same(shown.in_peak_hold))
        &&& if changed {
            &&& after.telemetry.curve_points@ == points
            &&& after.telemetry.in_peak == in_peak
            &&& after.telemetry.in_peak_hold == before.hold.level
            &&& after.telemetry.preset_names == shown.preset_names
        } else {
            after.telemetry == shown
        }
        &&& after == (AetherPanel {
            eq_curve_key: if known {
                before.eq_curve_key
            } else {
                Some(key)
            },
            telemetry: after.telemetry,
            ..before
        })
    }

    /// After the curve, as far as it has changed, was computed by `curve`, and the meter was brought
    /// up to date.
    pub open spec fn renewed<C: Fn(EqCurveKey) -> Vec<(Level, Level)>>(
        before: AetherPanel,
        in_peak: Level,
        key: EqCurveKey,
        curve: C,
        after: AetherPanel,
        changed: bool,
    ) -> bool {
        if before.eq_curve_key is Some && same_key(before.eq_curve_key->0, key) {
            Self::refreshed(
                before,
                in_peak,
                key,
                before.telemetry.curve_points@,
                after,
                changed,
            )
        } else {
            exists|points: Vec<(Level, Level)>| #[trigger]
                call_ensures(curve, (key,), points) && Self::refreshed(
                    before,
                    in_peak,
                    key,
                    points@,
                    after,
                    changed,
                )
        }
    }

    /// Brings the curve and the meter up to date; true where that changed what is shown.
    ///
    /// `curve` computes the points of a curve, and is asked only where the curve has changed.
    pub fn refresh<C: Fn(EqCurveKey) -> Vec<(Level, Level)>>(
        &mut self,
        in_peak: Level,
        key: EqCurveKey,
        curve: C,
    ) -> (changed: bool)
        requires
            forall|k: EqCurveKey| call_requires(curve, (k,)),
        ensures
            Self::renewed(*old(self), in_peak, key, curve, *final(self), changed),
    {
        let hold: Level = self.hold.level;
        let known: bool = match &self.eq_curve_key {
            Some(k) => k.equals(&key),
            None => false,
        };
        let level_changed: bool = !in_peak.equals(self.telemetry.in_peak) || !hold.equals(
            self.telemetry.in_peak_hold,
        );
        if known {
            let changed: bool = level_changed || !points_equal(
                &self.telemetry.curve_points,
                &self.telemetry.curve_points,
            );
            if changed {
                self.telemetry.in_peak = in_peak;
                self.telemetry.in_peak_hold = hold;
            }
            return changed;
        }
        self.eq_curve_key = Some(key);
        let points: Vec<(Level, Level)> = curve(key);
        let changed: bool = level_changed || !points_equal(&points, &self.telemetry.curve_points);
        if changed {
            self.telemetry.curve_points = points;
            self.telemetry.in_peak = in_peak;
            self.telemetry.in_peak_hold = hold;
        }
        proof {
            assert(call_ensures(curve, (key,), points));
        }
        changed
    }

    /// Whether a tick led from one panel to the other: the meter first, then the folder, a finished
    /// scan, and at last the curve.  It tells of a change where any of these changed what is shown.
    pub open spec fn ticked<D: Fn(Level) -> Level, C: Fn(EqCurveKey) -> Vec<(Level, Level)>>(
        before: AetherPanel,
        in_peak: Level,
        key: EqCurveKey,
        decay: D,
        curve: C,
        after: AetherPanel,
        r: TickReply,
    ) -> bool {
        exists|hold: InputHold, watched: AetherPanel, taken: AetherPanel, redrawn: bool|
            {
                &&& hold_ticked(before.hold, in_peak, decay, hold)
                &&& #[trigger] Self::watched((AetherPanel { hold, ..before }), watched, r.scan)
                &&& #[trigger] Self::taken(watched, taken)
                &&& #[trigger] Self::renewed(taken, in_peak, key, curve, after, redrawn)
                &&& r.changed == (Self::renamed(before, watched) || Self::renamed(watched, taken)
                    || redrawn)
            }
    }

    /// One tick of the panel; `decay` gives how far the held peak falls in one, `curve` computes
    /// the points of a curve.
    pub fn tick<D: Fn(Level) -> Level, C: Fn(EqCurveKey) -> Vec<(Level, Level)>>(
        &mut self,
        in_peak: Level,
        sr: Level,
        params: &AetherParams,
        decay: D,
        curve: C,
    ) -> (r: TickReply)
        requires
            forall|l: Level| call_requires(decay, (l,)),
            forall|k: EqCurveKey| call_requires(curve, (k,)),
        ensures
            Self::ticked(
                *old(self),
                in_peak,
                key_of_params(*params, sr),
                decay,
                curve,
                *final(self),
                r,
            ),
    {
        self.hold.tick(in_peak, decay);
        let ghost held = *self;
        let watch: TickReply = self.watch_vault();
        let ghost watched = *self;
        let scanned: bool = self.apply_scanned_presets();
        let ghost taken = *self;
        let redrawn: bool = self.refresh(in_peak, curve_key(params, sr), curve);
        proof {
            assert(held == (AetherPanel { hold: held.hold, ..*old(self) }));
            assert(Self::watched(
                (AetherPanel { hold: held.hold, ..*old(self) }),
                watched,
                watch.scan,
            ));
            assert(Self::taken(watched, taken));
            assert(Self::renewed(
                taken,
                in_peak,
                key_of_params(*params, sr),
                curve,
                *self,
                redrawn,
            ));
        }
        TickReply { scan: watch.scan, changed: watch.changed || scanned || redrawn }
    }

    /// Where the preset in the name field is to be saved; nowhere where it has no name.
    pub fn save_target(&self) -> (r: Option<SaveTarget>)
        ensures
            self.preset_name@.len() == 0 ==> r is None,
            self.preset_name@.len() > 0 ==> {
                &&& r is Some
                &&& r->0.file@ == self.preset_name@ + ".md"@
                &&& opt_text(r->0.folder) == (if text_or_empty(self.vault_path).len() > 0 {
                    opt_text(self.vault_path)
                } else {
                    None
                })
            },
    {
        if self.preset_name.as_str().is_empty() {
            return None;
        }
        let mut file: String = self.preset_name.clone();
        file.append(".md");
        let folder: Option<String> = match &self.vault_path {
            Some(f) => if f.as_str().is_empty() {
                None
            } else {
                Some(f.clone())
            },
            None => None,
        };
        Some(SaveTarget { folder, file })
    }

    /// Lists the preset in the name field, which was saved as the file `path`; also the scan that
    /// is to follow.
    pub fn saved(&mut self, path: String, params: &AetherParams) -> (r: Option<ScanRequest>)
        ensures
            texts(final(self).preset_opts@) == named_in(
                texts(old(self).preset_opts@),
                old(self).preset_name@,
            ),
            entries(final(self).cache@) == saved_in(
                entries(old(self).cache@),
                (EntryModel {
                    name: old(self).preset_name@,
                    path: Some(path@),
                    profile: profile_at(*params, old(self).preset_name@),
                }),
            ),
            final(self).pending@ == (if old(self).vault_path is Some {
                old(self).pending@.bumped()
            } else {
                old(self).pending@
            }),
            request_of(r) == scan_for(old(self).vault_path, old(self).pending@.next()),
            *final(self) == (AetherPanel {
                preset_opts: final(self).preset_opts,
                cache: final(self).cache,
                pending: final(self).pending,
                ..*old(self)
            }),
    {
        let name: String = self.preset_name.clone();
        if !list_has(&self.preset_opts, &name) {
            let ghost before = self.preset_opts@;
            self.preset_opts.push(name.clone());
            proof {
                assert(texts(self.preset_opts@) =~= texts(before).push(name@));
            }
        }
        let profile: AetherProfile = profile_from_params(params, &name);
        let entry: PresetEntry = PresetEntry { name, path: Some(path), profile };
        let ghost model = entry@;
        let ghost before = self.cache@;
        match find_entry(&self.cache, &entry.name) {
            Some(k) => {
                self.cache.set(k, entry);
                proof {
                    assert(entries(self.cache@) =~= entries(before).update(k as int, model));
                }
            },
            None => {
                self.cache.push(entry);
                proof {
                    assert(entries(self.cache@) =~= entries(before).push(model));
                }
            },
        }
        match &self.vault_path {
            Some(folder) => {
                let generation: u32 = self.pending.bump_generation();
                Some(ScanRequest { folder: folder.clone(), generation })
            },
            None => None,
        }
    }

    /// The preset of that name, which is now the one in the name field: from the presets of the
    /// last scan, else from `scanned`, a new look at the folder.
    pub fn pick(&mut self, name: &String, scanned: &Vec<PresetEntry>) -> (r: Option<AetherProfile>)
        ensures
            opt_profile(r) == picked(entries(old(self).cache@), entries(scanned@), name@),
            final(self).preset_name@ == name@,
            *final(self) == (AetherPanel { preset_name: final(self).preset_name, ..*old(self) }),
    {
        self.preset_name = name.clone();
        match find_listed(&self.cache, name) {
            Some(p) => Some(p),
            None => find_profile(name, scanned),
        }
    }

    /// Whether a pick of that name looks at the folder: the name is neither in the last scan nor
    /// that of the built-in preset.
    pub fn pick_needs_scan(&self, name: &String) -> (r: bool)
        ensures
            r == pick_seeks(entries(self.cache@), name@),
    {
        match find_entry(&self.cache, name) {
            Some(_) => false,
            None => !is_built_in(name),
        }
    }

    /// Takes over the folder in the folder field and closes the set-up.
    pub fn save_vault_path(&mut self)
        ensures
            opt_text(final(self).vault_path) == path_of(old(self).vault_path_input@),
            !final(self).show_setup,
            *final(self) == (AetherPanel {
                vault_path: final(self).vault_path,
                show_setup: false,
                ..*old(self)
            }),
    {
        self.vault_path = vault_path_of(&self.vault_path_input);
        self.show_setup = false;
    }

    /// Opens or closes the set-up.
    pub fn toggle_setup(&mut self)
        ensures
            *final(self) == (AetherPanel { show_setup: !old(self).show_setup, ..*old(self) }),
    {
        self.show_setup = !self.show_setup;
    }

    /// What the list of presets shows while it is closed.
    pub fn trigger_text(&self) -> (r: String)
        ensures
            r@ == (if self.preset_name@.len() == 0 {
                "Select preset"@
            } else {
                self.preset_name@
            }),
    {
        if self.preset_name.as_str().is_empty() {
            "Select preset".to_owned()
        } else {
            self.preset_name.clone()
        }
    }
}

/// A level as the input meter shows it; `text` is the level with one decimal.
pub open spec fn input_text(level: Level, text: Seq<char>, mark: Seq<char>) -> Seq<char> {
    if (Level { bits: SILENCE_BITS }).at_least(level) {
        "--"@
    } else {
        mark + text + " dB"@
    }
}

/// A level as the input meter shows it: two dashes for silence, else the mark, the level and its
/// unit.  `text` is the level with one decimal.
pub fn input_readout(level: Level, text: &str, mark: &str) -> (r: String)
    ensures
        r@ == input_text(level, text@, mark@),
{
    if (Level { bits: SILENCE_BITS }).ge(level) {
        "--".to_owned()
    } else {
        let mut r: String = mark.to_owned();
        r.append(text);
        r.append(" dB");
        r
    }
}

/// The preset of that name: from the last scan, else from the presets on offer.
pub open spec fn picked(
    cache: Seq<EntryModel>,
    scanned: Seq<EntryModel>,
    name: Seq<char>,
) -> Option<ProfileModel> {
    match found(cache, name) {
        Some(p) => Some(p),
        None => found(built_in() + scanned, name),
    }
}

/// Whether a pick of that name looks at the folder.
pub open spec fn pick_seeks(cache: Seq<EntryModel>, name: Seq<char>) -> bool {
    place_of(cache, name) is None && place_of(built_in(), name) is None
}

/// A pick that does not look at the folder finds its preset, whatever the folder holds.
pub proof fn law_known_presets_are_picked_without_the_folder(
    cache: Seq<EntryModel>,
    scanned: Seq<EntryModel>,
    other: Seq<EntryModel>,
    name: Seq<char>,
)
    requires
        !pick_seeks(cache, name),
    ensures
        picked(cache, scanned, name) is Some,
        picked(cache, scanned, name) == picked(cache, other, name),
{
    if place_of(built_in(), name) is Some {
        law_built_in_presets_need_no_folder(name, scanned, other);
    }
}

/// A tick that leaves other names in the list of presets tells of a change.
pub proof fn law_other_names_are_told<
    D: Fn(Level) -> Level,
    C: Fn(EqCurveKey) -> Vec<(Level, Level)>,
>(
    before: AetherPanel,
    in_peak: Level,
    key: EqCurveKey,
    decay: D,
    curve: C,
    after: AetherPanel,
    r: TickReply,
)
    requires
        AetherPanel::ticked(before, in_peak, key, decay, curve, after, r),
        AetherPanel::renamed(before, after),
    ensures
        r.changed,
{
}

proof fn lemma_place_unique(list: Seq<EntryModel>, name: Seq<char>, k: int, n: nat)
    requires
        0 <= k < n <= list.len(),
        list[k].name == name,
        forall|i: int| 0 <= i < k ==> (#[trigger] list[i]).name != name,
    ensures
        first_place(names_of(list), name, n) == Some(k),
{
    lemma_first_place(names_of(list), name, k as nat);
    assert forall|i: int| 0 <= i < k implies #[trigger] names_of(list)[i] != name by {
        assert(list[i].name != name);
    }
    assert(names_of(list)[k] == name);
    assert(first_place(names_of(list), name, k as nat) is None);
    assert(first_place(names_of(list), name, (k + 1) as nat) == Some(k));
    lemma_first_place_stays(names_of(list), name, (k + 1) as nat, n);
}

/// A preset that was just saved is found under its name, and every other name finds what it found
/// before.
pub proof fn law_saved_presets_are_found(list: Seq<EntryModel>, e: EntryModel, other: Seq<char>)
    ensures
        found(saved_in(list, e), e.name) == Some(e.profile),
        other != e.name ==> found(saved_in(list, e), other) == found(list, other),
{
    let after = saved_in(list, e);
    let k = place_of(list, e.name);
    let at: int = match k {
        Some(i) => i,
        None => list.len() as int,
    };
    lemma_first_place(names_of(list), e.name, list.len());
    if k is Some {
        lemma_place_first(list, e.name, list.len());
    }
    assert forall|i: int| 0 <= i < at implies (#[trigger] after[i]).name != e.name by {
        assert(after[i] == list[i]);
        assert(names_of(list)[i] == list[i].name);
    }
    lemma_place_unique(after, e.name, at, after.len());
    if other != e.name {
        lemma_first_place(names_of(list), other, list.len());
        match place_of(list, other) {
            Some(j) => {
                lemma_place_first(list, other, list.len());
                assert(names_of(list)[j] == list[j].name);
                assert(after[j] == list[j]);
                assert forall|i: int| 0 <= i < j implies (#[trigger] after[i]).name != other by {
                    assert(names_of(list)[i] == list[i].name);
                }
                lemma_place_unique(after, other, j, after.len());
            },
            None => {
                lemma_first_place(names_of(after), other, after.len());
                match place_of(after, other) {
                    Some(j) => {
                        assert(names_of(after)[j] == after[j].name);
                        assert(after[j] == list[j]);
                        assert(names_of(list)[j] == list[j].name);
                    },
                    None => {},
                }
            },
        }
    }
}

proof fn lemma_place_first(list: Seq<EntryModel>, name: Seq<char>, n: nat)
    requires
        n <= list.len(),
    ensures
        match first_place(names_of(list), name, n) {
            Some(k) => forall|i: int| 0 <= i < k ==> #[trigger] names_of(list)[i] != name,
            None => true,
        },
    decreases n,
{
    if n > 0 {
        lemma_place_first(list, name, (n - 1) as nat);
        lemma_first_place(names_of(list), name, (n - 1) as nat);
    }
}

} // verus!
