//! The editor of Aether: it turns what the user does into changes of parameters, of the list of
//! presets and of the configuration.

use crate::aether_library::{
    append_entries, built_in, copy_entry, default_presets, entries, find_entry, names_of, place_of,
    EntryModel,
    PresetEntry,
};
use crate::aether_panel::{entry_names, hold_ticked, input_readout, input_text, InputHold};
use crate::aether_params::{
    apply_profile, edit_field, field_setting, next_choice, profile_at, profile_from_params, profile_settings,
    remainder, reset_all, reset_settings, AetherParam, AetherParams, Setting, GAIN_MAX_BITS,
    GAIN_MIN_BITS, REALISMS, TYPES,
};
use crate::aether_preset::{AetherProfile, B100};
use crate::host::{automate_all, automated, automated_all, push_edit, Edit, ParamValue};
use crate::knob::Gesture;
use crate::level::{Level, SILENCE_BITS};
use crate::text::{decimal, push_decimal, texts, trim_string, trimmed};
use crate::vault::{copy_path, opt_text, path_of, path_or_empty, text_or_empty, vault_path_of};
use vstd::prelude::*;
use vstd::string::*;

verus! {

/// How many ticks lie between two looks at the preset folder.
pub const REFRESH_TICKS: u32 = 150;

/// How many text fields a band has.
pub const FIELDS: usize = 3;

/// The bit pattern of `30.0`, the smallest angle of the crossfeed.
pub const ANGLE_MIN_BITS: u32 = 0x41f0_0000;

/// The bit pattern of `75.0`, the largest angle of the crossfeed.
pub const ANGLE_MAX_BITS: u32 = 0x4296_0000;

/// The identity of the text field `f` of the band `b`.
pub fn eq_field_id(b: usize, f: usize) -> (r: String)
    ensures
        r@ == "aether-eq-"@ + decimal(b as nat) + "-"@ + decimal(f as nat),
{
    let mut r: String = "aether-eq-".to_owned();
    push_decimal(&mut r, b as u64);
    r.append("-");
    push_decimal(&mut r, f as u64);
    r
}

/// What the user or the frame clock tells the editor.
pub enum AetherMsg {
    Tick,
    EqTextChanged(usize, usize, String),
    EqTypeCycled(usize),
    BlendGesture(Gesture),
    CfAngleGesture(Gesture),
    CfAmountGesture(Gesture),
    RealismCycled,
    GainGesture(Gesture),
    BypassToggled,
    ResetAll,
    SelectPreset(usize),
    PresetNameChanged(String),
    SavePreset,
    SetupToggled,
    VaultPathChanged(String),
    SaveVaultPath,
}

/// What is to be written to the configuration.
pub struct ConfigWrite {
    pub vault_path: Option<String>,
    /// The last preset; none leaves the one that is there.
    pub last_preset: Option<String>,
}

/// A preset file to be written.
pub struct FileWrite {
    pub folder: String,
    pub file: String,
}

/// What the editor asks for after a message.
pub struct Effects {
    pub edits: Vec<Edit<AetherParam>>,
    /// Whether the text fields are to be filled from the parameters.
    pub refill: bool,
    /// The folder to scan.
    pub scan: Option<String>,
    pub config: Option<ConfigWrite>,
    pub file: Option<FileWrite>,
}

/// The values of [`Effects`].
pub struct EffectsModel {
    pub edits: Seq<Edit<AetherParam>>,
    pub refill: bool,
    pub scan: Option<Seq<char>>,
    pub config: Option<(Option<Seq<char>>, Option<Seq<char>>)>,
    pub file: Option<(Seq<char>, Seq<char>)>,
}

impl View for Effects {
    type V = EffectsModel;

    open spec fn view(&self) -> EffectsModel {
        EffectsModel {
            edits: self.edits@,
            refill: self.refill,
            scan: opt_text(self.scan),
            config: match self.config {
                Some(c) => Some((opt_text(c.vault_path), opt_text(c.last_preset))),
                None => None,
            },
            file: match self.file {
                Some(f) => Some((f.folder@, f.file@)),
                None => None,
            },
        }
    }
}

/// Nothing is asked for.
pub open spec fn nothing() -> EffectsModel {
    EffectsModel { edits: Seq::empty(), refill: false, scan: None, config: None, file: None }
}

/// Changes are asked for.
pub open spec fn only_edits(edits: Seq<Edit<AetherParam>>) -> EffectsModel {
    EffectsModel { edits, ..nothing() }
}

/// The calls that a step of a gesture makes, with the value held between two others.
pub open spec fn gesture_edits(p: AetherParam, g: Gesture, min: Level, max: Level) -> Seq<Edit<AetherParam>> {
    match g {
        Gesture::Start => seq![Edit::Begin(p)],
        Gesture::Change(v) => seq![Edit::Change(p, ParamValue::Number(v.clamped(min, max)))],
        Gesture::End => seq![Edit::End(p)],
    }
}

fn no_effects() -> (r: Effects)
    ensures
        r@ == nothing(),
{
    let r: Effects = Effects {
        edits: Vec::new(),
        refill: false,
        scan: None,
        config: None,
        file: None,
    };
    proof {
        assert(r.edits@ =~= Seq::<Edit<AetherParam>>::empty());
    }
    r
}

/// The effects of a single change.
fn one_edit(s: Setting) -> (r: Effects)
    ensures
        r@ == only_edits(automated(s.0, s.1)),
{
    let mut r: Effects = no_effects();
    push_edit(&mut r.edits, s.0, s.1);
    proof {
        assert(r.edits@ =~= automated(s.0, s.1));
    }
    r
}

/// The effects of a step of a gesture.
fn gesture_f(p: AetherParam, g: Gesture, min: Level, max: Level) -> (r: Effects)
    requires
        max.at_least(min),
    ensures
        r@ == only_edits(gesture_edits(p, g, min, max)),
{
    let mut r: Effects = no_effects();
    let edit: Edit<AetherParam> = match g {
        Gesture::Start => Edit::Begin(p),
        Gesture::Change(v) => Edit::Change(p, ParamValue::Number(v.clamp(min, max))),
        Gesture::End => Edit::End(p),
    };
    r.edits.push(edit);
    proof {
        assert(r.edits@ =~= gesture_edits(p, g, min, max));
    }
    r
}

/// Those of the first `n` presets that come from no file.
pub open spec fn kept(list: Seq<EntryModel>, n: nat) -> Seq<EntryModel>
    decreases n,
{
    if n == 0 {
        Seq::empty()
    } else if list[n - 1].path is None {
        kept(list, (n - 1) as nat).push(list[n - 1])
    } else {
        kept(list, (n - 1) as nat)
    }
}

/// A list of presets with those of a folder as they are now.
pub open spec fn relisted(list: Seq<EntryModel>, scanned: Seq<EntryModel>) -> Seq<EntryModel> {
    kept(list, list.len()) + scanned
}

/// The editor.
pub struct AetherEditor {
    pub params: AetherParams,
    pub vault_path: Option<String>,
    pub show_setup: bool,
    pub vault_path_input: String,
    pub preset_name_input: String,
    pub presets: Vec<PresetEntry>,
    pub selected_preset_index: Option<usize>,
    /// The texts of the fields, [`FIELDS`] for each band.
    pub eq_text: Vec<String>,
    pub in_peak: Level,
    pub hold: InputHold,
    pub preset_refresh_counter: u32,
}

/// Whether a message names a band and a field that exist.
pub open spec fn in_range(m: AetherMsg) -> bool {
    match m {
        AetherMsg::EqTextChanged(b, f, s) => b < 5 && f < FIELDS,
        AetherMsg::EqTypeCycled(b) => b < 5,
        _ => true,
    }
}

/// What the editor reads beside a message: how far a held peak falls in a tick, a text as a
/// number, and the path of a file in a folder.
pub struct Readers<
    D: Fn(Level) -> Level,
    N: Fn(&String) -> Option<Level>,
    J: Fn(&String, &String) -> String,
> {
    pub decay: D,
    pub number: N,
    pub join: J,
}

impl AetherEditor {
    /// The fields are there, and the next look at the folder lies ahead.
    pub open spec fn wf(self) -> bool {
        &&& self.eq_text@.len() == 5 * FIELDS
        &&& self.preset_refresh_counter < REFRESH_TICKS
        &&& forall|b: int| 0 <= b < 5 ==> (#[trigger] self.params.bands@[b]).0 < i32::MAX
        &&& self.params.cf_realism < i32::MAX
    }

    /// Whether a message led from one editor to the other and to the given effects.
    pub open spec fn updated<
        D: Fn(Level) -> Level,
        N: Fn(&String) -> Option<Level>,
        J: Fn(&String, &String) -> String,
    >(
        before: AetherEditor,
        m: AetherMsg,
        in_peak: Level,
        read: Readers<D, N, J>,
        after: AetherEditor,
        effects: EffectsModel,
    ) -> bool {
        match m {
            AetherMsg::Tick => {
                let due = before.preset_refresh_counter + 1 >= REFRESH_TICKS;
                &&& hold_ticked(before.hold, in_peak, read.decay, after.hold)
                &&& effects == (EffectsModel {
                    scan: if due {
                        opt_text(before.vault_path)
                    } else {
                        None
                    },
                    ..nothing()
                })
                &&& after == (AetherEditor {
                    in_peak,
                    hold: after.hold,
                    preset_refresh_counter: if due {
                        0
                    } else {
                        (before.preset_refresh_counter + 1) as u32
                    },
                    ..before
                })
            },
            AetherMsg::EqTextChanged(b, f, s) => {
                &&& after.eq_text@ == before.eq_text@.update(b * FIELDS + f, s)
                &&& after == (AetherEditor { eq_text: after.eq_text, ..before })
                &&& exists|t: String, v: Option<Level>|
                    {
                        &&& t@ == trimmed(s@)
                        &&& #[trigger] call_ensures(read.number, (&t,), v)
                        &&& effects == match v {
                            Some(x) => {
                                let (p, v) = field_setting(b, f as int, x);
                                only_edits(automated(p, v))
                            },
                            None => nothing(),
                        }
                    }
            },
            AetherMsg::EqTypeCycled(b) => {
                &&& after == before
                &&& effects == only_edits(
                    automated(
                        AetherParam::BandType(b),
                        ParamValue::Choice(
                            remainder(before.params.bands@[b as int].0 + 1, TYPES as int) as i32,
                        ),
                    ),
                )
            },
            AetherMsg::BlendGesture(g) => {
                &&& after == before
                &&& effects == only_edits(
                    gesture_edits(
                        AetherParam::Blend,
                        g,
                        Level { bits: 0 },
                        Level { bits: B100 },
                    ),
                )
            },
            AetherMsg::CfAngleGesture(g) => {
                &&& after == before
                &&& effects == only_edits(
                    gesture_edits(
                        AetherParam::CfAngle,
                        g,
                        Level { bits: ANGLE_MIN_BITS },
                        Level { bits: ANGLE_MAX_BITS },
                    ),
                )
            },
            AetherMsg::CfAmountGesture(g) => {
                &&& after == before
                &&& effects == only_edits(
                    gesture_edits(
                        AetherParam::CfAmount,
                        g,
                        Level { bits: 0 },
                        Level { bits: B100 },
                    ),
                )
            },
            AetherMsg::RealismCycled => {
                &&& after == before
                &&& effects == only_edits(
                    automated(
                        AetherParam::CfRealism,
                        ParamValue::Choice(
                            remainder(before.params.cf_realism + 1, REALISMS as int) as i32,
                        ),
                    ),
                )
            },
            AetherMsg::GainGesture(g) => {
                &&& after == before
                &&& effects == only_edits(
                    gesture_edits(
                        AetherParam::Gain,
                        g,
                        Level { bits: GAIN_MIN_BITS },
                        Level { bits: GAIN_MAX_BITS },
                    ),
                )
            },
            AetherMsg::BypassToggled => {
                &&& after == before
                &&& effects == only_edits(
                    automated(AetherParam::Bypass, ParamValue::Switch(!before.params.bypass)),
                )
            },
            AetherMsg::ResetAll => {
                &&& after == before
                &&& effects == (EffectsModel {
                    edits: automated_all(reset_settings(false)),
                    refill: true,
                    ..nothing()
                })
            },
            AetherMsg::SelectPreset(idx) => if idx < before.presets@.len() {
                let p = before.presets@[idx as int].profile@;
                &&& after.preset_name_input@ == p.name
                &&& after == (AetherEditor {
                    selected_preset_index: Some(idx),
                    preset_name_input: after.preset_name_input,
                    ..before
                })
                &&& effects == (EffectsModel {
                    edits: automated_all(profile_settings(p)),
                    refill: true,
                    config: Some((opt_text(before.vault_path), Some(p.name))),
                    ..nothing()
                })
            } else {
                after == before && effects == nothing()
            },
            AetherMsg::PresetNameChanged(s) => {
                &&& after == (AetherEditor { preset_name_input: s, ..before })
                &&& effects == nothing()
            },
            AetherMsg::SavePreset => match before.vault_path {
                Some(folder) => {
                    let name = before.preset_name_input@;
                    &&& effects == (EffectsModel {
                        config: Some((Some(folder@), Some(name))),
                        file: Some((folder@, name + ".md"@)),
                        ..nothing()
                    })
                    &&& after.selected_preset_index is Some
                    &&& after.selected_preset_index->0 == before.presets@.len()
                    &&& exists|file: String, path: String|
                        {
                            &&& file@ == name + ".md"@
                            &&& #[trigger] call_ensures(read.join, (&folder, &file), path)
                            &&& entries(after.presets@) == entries(before.presets@).push(
                                EntryModel {
                                    name,
                                    path: Some(path@),
                                    profile: profile_at(before.params, name),
                                },
                            )
                        }
                    &&& after == (AetherEditor {
                        presets: after.presets,
                        selected_preset_index: after.selected_preset_index,
                        ..before
                    })
                },
                None => {
                    &&& after == (AetherEditor { show_setup: true, ..before })
                    &&& effects == nothing()
                },
            },
            AetherMsg::SetupToggled => {
                &&& effects == nothing()
                &&& if before.show_setup {
                    after == (AetherEditor { show_setup: false, ..before })
                } else {
                    &&& after.vault_path_input@ == text_or_empty(before.vault_path)
                    &&& after == (AetherEditor {
                        show_setup: true,
                        vault_path_input: after.vault_path_input,
                        ..before
                    })
                }
            },
            AetherMsg::VaultPathChanged(s) => {
                &&& after == (AetherEditor { vault_path_input: s, ..before })
                &&& effects == nothing()
            },
            AetherMsg::SaveVaultPath => {
                let folder = path_of(before.vault_path_input@);
                &&& opt_text(after.vault_path) == folder
                &&& entries(after.presets@) == built_in()
                &&& after == (AetherEditor {
                    vault_path: after.vault_path,
                    presets: after.presets,
                    selected_preset_index: Some(0),
                    show_setup: false,
                    ..before
                })
                &&& effects == (EffectsModel {
                    scan: folder,
                    config: Some((folder, None)),
                    ..nothing()
                })
            },
        }
    }

    /// An editor on the configured folder and the last preset.  `scanned` lists the presets of
    /// the folder, `eq_text` the texts of the fields.
    pub fn new(
        params: AetherParams,
        vault_path: Option<String>,
        last_preset: Option<String>,
        scanned: &Vec<PresetEntry>,
        eq_text: Vec<String>,
    ) -> (r: AetherEditor)
        requires
            eq_text@.len() == 5 * FIELDS,
        ensures
            r.params == params,
            r.vault_path == vault_path,
            !r.show_setup,
            r.vault_path_input@ == text_or_empty(vault_path),
            r.preset_name_input@ == text_or_empty(last_preset),
            entries(r.presets@) == built_in() + entries(scanned@),
            r.selected_preset_index is Some,
            r.selected_preset_index->0 == match last_preset {
                Some(name) => match place_of(built_in() + entries(scanned@), name@) {
                    Some(k) => k,
                    None => 0,
                },
                None => 0,
            },
            r.eq_text == eq_text,
            r.in_peak == (Level { bits: SILENCE_BITS }),
            r.hold == (InputHold { level: Level { bits: SILENCE_BITS }, ticks: 0 }),
            r.preset_refresh_counter == 0,
    {
        let mut presets: Vec<PresetEntry> = default_presets();
        append_entries(&mut presets, scanned);
        let selected: usize = match &last_preset {
            Some(name) => match find_entry(&presets, name) {
                Some(k) => k,
                None => 0,
            },
            None => 0,
        };
        let vault_path_input: String = path_or_empty(&vault_path);
        AetherEditor {
            params,
            vault_path,
            show_setup: false,
            vault_path_input,
            preset_name_input: path_or_empty(&last_preset),
            presets,
            selected_preset_index: Some(selected),
            eq_text,
            in_peak: Level { bits: SILENCE_BITS },
            hold: InputHold::new(),
            preset_refresh_counter: 0,
        }
    }

    /// Handles a message; `in_peak` is the input peak.
    pub fn update<
        D: Fn(Level) -> Level,
        N: Fn(&String) -> Option<Level>,
        J: Fn(&String, &String) -> String,
    >(&mut self, m: AetherMsg, in_peak: Level, read: &Readers<D, N, J>) -> (r: Effects)
        requires
            old(self).wf(),
            in_range(m),
            forall|l: Level| call_requires(read.decay, (l,)),
            forall|t: &String| call_requires(read.number, (t,)),
            forall|a: &String, b: &String| call_requires(read.join, (a, b)),
        ensures
            final(self).wf(),
            Self::updated(*old(self), m, in_peak, *read, *final(self), r@),
    {
        let zero: Level = Level { bits: 0 };
        let hundred: Level = Level { bits: B100 };
        match m {
            AetherMsg::Tick => {
                let decay = |l: Level| -> (v: Level)
                    ensures
                        call_ensures(read.decay, (l,), v),
                    { (read.decay)(l) };
                let ghost before = self.hold;
                self.in_peak = in_peak;
                self.hold.tick(in_peak, decay);
                proof {
                    assert(hold_ticked(before, in_peak, read.decay, self.hold));
                }
                let mut effects: Effects = no_effects();
                let count: u32 = self.preset_refresh_counter + 1;
                if count >= REFRESH_TICKS {
                    self.preset_refresh_counter = 0;
                    effects.scan = copy_path(&self.vault_path);
                } else {
                    self.preset_refresh_counter = count;
                }
                effects
            },
            AetherMsg::EqTextChanged(b, f, s) => {
                let t: String = trim_string(&s);
                self.eq_text.set(b * FIELDS + f, s);
                let v: Option<Level> = (read.number)(&t);
                let effects: Effects = match v {
                    Some(x) => one_edit(edit_field(b, f, x)),
                    None => no_effects(),
                };
                proof {
                    assert(call_ensures(read.number, (&t,), v));
                }
                effects
            },
            AetherMsg::EqTypeCycled(b) => {
                let n: i32 = next_choice(self.params.bands[b].0, TYPES);
                one_edit((AetherParam::BandType(b), ParamValue::Choice(n)))
            },
            AetherMsg::BlendGesture(g) => gesture_f(AetherParam::Blend, g, zero, hundred),
            AetherMsg::CfAngleGesture(g) => gesture_f(
                AetherParam::CfAngle,
                g,
                Level { bits: ANGLE_MIN_BITS },
                Level { bits: ANGLE_MAX_BITS },
            ),
            AetherMsg::CfAmountGesture(g) => gesture_f(AetherParam::CfAmount, g, zero, hundred),
            AetherMsg::RealismCycled => {
                let n: i32 = next_choice(self.params.cf_realism, REALISMS);
                one_edit((AetherParam::CfRealism, ParamValue::Choice(n)))
            },
            AetherMsg::GainGesture(g) => gesture_f(
                AetherParam::Gain,
                g,
                Level { bits: GAIN_MIN_BITS },
                Level { bits: GAIN_MAX_BITS },
            ),
            AetherMsg::BypassToggled => one_edit(
                (AetherParam::Bypass, ParamValue::Switch(!self.params.bypass)),
            ),
            AetherMsg::ResetAll => {
                let mut effects: Effects = no_effects();
                effects.edits = automate_all(&reset_all(false));
                effects.refill = true;
                effects
            },
            AetherMsg::SelectPreset(idx) => self.select_preset(idx),
            AetherMsg::PresetNameChanged(s) => {
                self.preset_name_input = s;
                no_effects()
            },
            AetherMsg::SavePreset => {
                let folder: String = match &self.vault_path {
                    Some(folder) => folder.clone(),
                    None => {
                        self.show_setup = true;
                        return no_effects();
                    },
                };
                let name: String = self.preset_name_input.clone();
                let mut file: String = name.clone();
                file.append(".md");
                let path: String = match &self.vault_path {
                    Some(f) => (read.join)(f, &file),
                    None => String::new(),
                };
                proof {
                    assert(call_ensures(read.join, (&self.vault_path->0, &file), path));
                }
                let profile: AetherProfile = profile_from_params(&self.params, &name);
                let entry: PresetEntry = PresetEntry {
                    name: name.clone(),
                    path: Some(path),
                    profile,
                };
                let ghost before = self.presets@;
                let ghost model = entry@;
                let place: usize = self.presets.len();
                self.presets.push(entry);
                proof {
                    assert(entries(self.presets@) =~= entries(before).push(model));
                }
                self.selected_preset_index = Some(place);
                let mut effects: Effects = no_effects();
                effects.config = Some(
                    ConfigWrite { vault_path: copy_path(&self.vault_path), last_preset: Some(name) },
                );
                effects.file = Some(FileWrite { folder, file });
                effects
            },
            AetherMsg::SetupToggled => {
                self.show_setup = !self.show_setup;
                if self.show_setup {
                    self.vault_path_input = path_or_empty(&self.vault_path);
                }
                no_effects()
            },
            AetherMsg::VaultPathChanged(s) => {
                self.vault_path_input = s;
                no_effects()
            },
            AetherMsg::SaveVaultPath => {
                self.vault_path = vault_path_of(&self.vault_path_input);
                self.presets = default_presets();
                self.selected_preset_index = Some(0);
                self.show_setup = false;
                let mut effects: Effects = no_effects();
                effects.scan = copy_path(&self.vault_path);
                effects.config = Some(
                    ConfigWrite { vault_path: copy_path(&self.vault_path), last_preset: None },
                );
                effects
            },
        }
    }

    fn select_preset(&mut self, idx: usize) -> (r: Effects)
        requires
            old(self).wf(),
        ensures
            final(self).wf(),
            if idx < old(self).presets@.len() {
                let p = old(self).presets@[idx as int].profile@;
                &&& final(self).preset_name_input@ == p.name
                &&& *final(self) == (AetherEditor {
                    selected_preset_index: Some(idx),
                    preset_name_input: final(self).preset_name_input,
                    ..*old(self)
                })
                &&& r@ == (EffectsModel {
                    edits: automated_all(profile_settings(p)),
                    refill: true,
                    config: Some((opt_text(old(self).vault_path), Some(p.name))),
                    ..nothing()
                })
            } else {
                *final(self) == *old(self) && r@ == nothing()
            },
    {
        if idx >= self.presets.len() {
            return no_effects();
        }
        self.selected_preset_index = Some(idx);
        let mut effects: Effects = no_effects();
        effects.edits = automate_all(&apply_profile(&self.presets[idx].profile));
        effects.refill = true;
        let name: String = self.presets[idx].profile.name.clone();
        self.preset_name_input = name.clone();
        effects.config = Some(
            ConfigWrite { vault_path: copy_path(&self.vault_path), last_preset: Some(name) },
        );
        effects
    }

    /// Lists the presets of the folder as they are now, in place of those from files.
    pub fn refresh(&mut self, scanned: &Vec<PresetEntry>)
        ensures
            entries(final(self).presets@) == relisted(
                entries(old(self).presets@),
                entries(scanned@),
            ),
            *final(self) == (AetherEditor { presets: final(self).presets, ..*old(self) }),
    {
        let ghost all = entries(self.presets@);
        let mut list: Vec<PresetEntry> = Vec::new();
        proof {
            assert(entries(list@) =~= kept(all, 0));
        }
        for i in 0..self.presets.len()
            invariant
                *self == *old(self),
                all == entries(self.presets@),
                entries(list@) == kept(all, i as nat),
        {
            let ghost before = list@;
            if self.presets[i].path.is_none() {
                let entry: PresetEntry = copy_entry(&self.presets[i]);
                list.push(entry);
                proof {
                    assert(entries(list@) =~= entries(before).push(entry@));
                }
            }
            proof {
                assert(all[i as int] == self.presets@[i as int]@);
            }
        }
        append_entries(&mut list, scanned);
        self.presets = list;
    }

    /// The name of the preset that the list shows as chosen.
    pub fn selected_name(&self) -> (r: Option<String>)
        ensures
            opt_text(r) == (if self.selected_preset_index is Some && self.selected_preset_index->0
                < self.presets@.len() {
                Some(self.presets@[self.selected_preset_index->0 as int].name@)
            } else {
                None
            }),
    {
        match self.selected_preset_index {
            Some(i) => if i < self.presets.len() {
                Some(self.presets[i].name.clone())
            } else {
                None
            },
            None => None,
        }
    }

    /// The names that the list offers.
    pub fn preset_names(&self) -> (r: Vec<String>)
        ensures
            texts(r@) == names_of(entries(self.presets@)),
    {
        entry_names(&self.presets)
    }

    /// The preset that a choice of that name selects.
    pub fn place_for(&self, name: &String) -> (r: usize)
        ensures
            r == match place_of(entries(self.presets@), name@) {
                Some(k) => k,
                None => 0,
            },
    {
        match find_entry(&self.presets, name) {
            Some(k) => k,
            None => 0,
        }
    }

    /// The two lines of the input meter: the peak and the held peak.  `peak` and `held` are the two
    /// levels with one decimal.
    pub fn input_reader(&self, peak: &str, held: &str) -> (r: (String, String))
        ensures
            r.0@ == input_text(self.in_peak, peak@, ""@),
            r.1@ == "pk "@ + input_text(self.hold.level, held@, ""@),
    {
        let mut second: String = "pk ".to_owned();
        let text: String = input_readout(self.hold.level, held, "");
        second.append(text.as_str());
        (input_readout(self.in_peak, peak, ""), second)
    }
}

proof fn lemma_kept_all(list: Seq<EntryModel>, more: Seq<EntryModel>, n: nat)
    requires
        n <= list.len(),
        forall|i: int| 0 <= i < list.len() ==> (#[trigger] list[i]).path is None,
    ensures
        kept(list + more, n) == list.take(n as int),
    decreases n,
{
    if n > 0 {
        lemma_kept_all(list, more, (n - 1) as nat);
        assert((list + more)[n - 1] == list[n - 1]);
        assert(list.take(n as int) =~= list.take(n - 1).push(list[n - 1]));
    } else {
        assert(list.take(0) =~= Seq::<EntryModel>::empty());
    }
}

proof fn lemma_kept_none(list: Seq<EntryModel>, more: Seq<EntryModel>, n: nat)
    requires
        n <= more.len(),
        forall|i: int| 0 <= i < more.len() ==> (#[trigger] more[i]).path is Some,
    ensures
        kept(list + more, list.len() + n) == kept(list + more, list.len()),
    decreases n,
{
    if n > 0 {
        lemma_kept_none(list, more, (n - 1) as nat);
        assert((list + more)[list.len() + n - 1] == more[n - 1]);
    }
}

proof fn lemma_kept_pathless(list: Seq<EntryModel>, n: nat)
    requires
        n <= list.len(),
    ensures
        forall|i: int| 0 <= i < kept(list, n).len() ==> (#[trigger] kept(list, n)[i]).path is None,
    decreases n,
{
    if n > 0 {
        lemma_kept_pathless(list, (n - 1) as nat);
    }
}

/// A second look at the folder replaces what the first one listed: the list is the built-in
/// presets and what the folder holds now, however often it was looked at.
pub proof fn law_the_last_look_counts(
    list: Seq<EntryModel>,
    first: Seq<EntryModel>,
    second: Seq<EntryModel>,
)
    requires
        forall|i: int| 0 <= i < first.len() ==> (#[trigger] first[i]).path is Some,
    ensures
        relisted(relisted(list, first), second) == relisted(list, second),
{
    let base = kept(list, list.len());
    lemma_kept_pathless(list, list.len());
    lemma_kept_all(base, first, base.len());
    lemma_kept_none(base, first, first.len());
    assert(base.take(base.len() as int) =~= base);
}

} // verus!
