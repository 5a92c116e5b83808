//! The editor of Equilibrium: target profiles, snapshots and what its buttons do.

use crate::equilibrium_params::Param;
use crate::level::Level;
use crate::lucent_panel::{folder_is_set, has_folder};
use crate::snapshot::SnapState;
use crate::text::{chars_of, decimal, push_decimal, trim_string, trimmed};
use vstd::prelude::*;
use vstd::string::*;

verus! {

/// The bit pattern of `100.0`.
pub const FULL_WIDTH_BITS: u32 = 0x42c8_0000;

/// The bit pattern of `0.05`, the loudness offset that is worth applying.
pub const OFFSET_MIN_BITS: u32 = 0x3d4c_cccd;

/// The bit pattern of `0.01`, the pan that counts as the centre.
pub const CENTER_BITS: u32 = 0x3c23_d70a;

/// The bit pattern of `0.5`, above which a switch is on.
pub const HALF_BITS: u32 = 0x3f00_0000;

/// The bit pattern of `100.0`, the samples that a profile needs to be applied.
pub const MIN_PROFILE_BITS: u32 = 0x42c8_0000;

/// A target profile with its stereo settings.
#[derive(Clone, Copy)]
pub struct EqPreset {
    pub bands: [Level; 5],
    pub tolerances: [Level; 5],
    pub pans: [Level; 5],
    pub widths: [Level; 5],
    pub mono_floor_hz: Level,
}

/// A target profile in the list: its name, its file where it has one, and its values.
pub struct PresetEntry {
    pub name: String,
    pub path: Option<String>,
    pub preset: EqPreset,
}

/// Five times zero.
pub open spec fn zeros5(s: Seq<Level>) -> bool {
    s == seq![
        Level { bits: 0 },
        Level { bits: 0 },
        Level { bits: 0 },
        Level { bits: 0 },
        Level { bits: 0 },
    ]
}

/// Five times the full width.
pub open spec fn full5(s: Seq<Level>) -> bool {
    s == seq![
        Level { bits: FULL_WIDTH_BITS },
        Level { bits: FULL_WIDTH_BITS },
        Level { bits: FULL_WIDTH_BITS },
        Level { bits: FULL_WIDTH_BITS },
        Level { bits: FULL_WIDTH_BITS },
    ]
}

/// Whether an entry is the built-in one: pink noise, which reads flat.
pub open spec fn is_pink_noise(e: PresetEntry, tolerances: Seq<Level>) -> bool {
    &&& e.name@ == "Pink Noise"@
    &&& e.path is None
    &&& zeros5(e.preset.bands@)
    &&& e.preset.tolerances@ == tolerances
    &&& zeros5(e.preset.pans@)
    &&& full5(e.preset.widths@)
    &&& e.preset.mono_floor_hz == Level { bits: 0 }
}

/// The list of target profiles: the built-in one, then those found in the folder.
pub fn load_presets(tolerances: [Level; 5], custom: Vec<PresetEntry>) -> (r: Vec<PresetEntry>)
    ensures
        r@.len() == custom@.len() + 1,
        is_pink_noise(r@[0], tolerances@),
        r@.skip(1) == custom@,
{
    let zero: Level = Level { bits: 0 };
    let full: Level = Level { bits: FULL_WIDTH_BITS };
    let flat: [Level; 5] = [zero, zero, zero, zero, zero];
    let wide: [Level; 5] = [full, full, full, full, full];
    let mut r: Vec<PresetEntry> = Vec::new();
    r.push(
        PresetEntry {
            name: "Pink Noise".to_owned(),
            path: None,
            preset: EqPreset {
                bands: flat,
                tolerances,
                pans: flat,
                widths: wide,
                mono_floor_hz: zero,
            },
        },
    );
    proof {
        assert(flat@ =~= seq![zero, zero, zero, zero, zero]);
        assert(wide@ =~= seq![full, full, full, full, full]);
    }
    let mut rest: Vec<PresetEntry> = custom;
    r.append(&mut rest);
    proof {
        assert(r@.skip(1) =~= custom@);
    }
    r
}

/// The places among the first `n` entries that have a file, or have none.
pub open spec fn places(entries: Seq<PresetEntry>, saved: bool, n: nat) -> Seq<usize>
    decreases n,
{
    if n == 0 {
        Seq::empty()
    } else {
        let before = places(entries, saved, (n - 1) as nat);
        if entries[n - 1].path is Some == saved {
            before.push((n - 1) as usize)
        } else {
            before
        }
    }
}

/// The places of the entries that have a file (`saved`), or have none.
pub fn list_places(entries: &Vec<PresetEntry>, saved: bool) -> (r: Vec<usize>)
    ensures
        r@ == places(entries@, saved, entries@.len()),
{
    let mut r: Vec<usize> = Vec::new();
    for i in 0..entries.len()
        invariant
            r@ == places(entries@, saved, i as nat),
    {
        if entries[i].path.is_some() == saved {
            r.push(i);
        }
    }
    r
}

/// What a target profile sets: the widths, the pans and the mono floor.
pub open spec fn stereo_settings(p: EqPreset) -> Seq<(Param, Level)> {
    seq![
        (Param::LowWidth, p.widths@[0]),
        (Param::BassWidth, p.widths@[1]),
        (Param::MidWidth, p.widths@[2]),
        (Param::HighMidWidth, p.widths@[3]),
        (Param::HighWidth, p.widths@[4]),
        (Param::LowPan, p.pans@[0]),
        (Param::BassPan, p.pans@[1]),
        (Param::MidPan, p.pans@[2]),
        (Param::HighMidPan, p.pans@[3]),
        (Param::HighPan, p.pans@[4]),
        (Param::MonoFloor, p.mono_floor_hz),
    ]
}

/// What a target profile sets.
pub fn preset_settings(p: &EqPreset) -> (r: Vec<(Param, Level)>)
    ensures
        r@ == stereo_settings(*p),
{
    let r: Vec<(Param, Level)> = vec![
        (Param::LowWidth, p.widths[0]),
        (Param::BassWidth, p.widths[1]),
        (Param::MidWidth, p.widths[2]),
        (Param::HighMidWidth, p.widths[3]),
        (Param::HighWidth, p.widths[4]),
        (Param::LowPan, p.pans[0]),
        (Param::BassPan, p.pans[1]),
        (Param::MidPan, p.pans[2]),
        (Param::HighMidPan, p.pans[3]),
        (Param::HighPan, p.pans[4]),
        (Param::MonoFloor, p.mono_floor_hz),
    ];
    proof {
        assert(r@ =~= stereo_settings(*p));
    }
    r
}

/// Whether the value of a switch reads as on.
pub open spec fn reads_on(value: Level) -> bool {
    !(Level { bits: HALF_BITS }).at_least(value)
}

/// The target that the analysis is held against.
pub struct Target {
    pub levels: [Level; 5],
    pub tolerances: [Level; 5],
    pub selected: Option<usize>,
}

impl Target {
    /// Chooses the profile at a place; nothing happens where there is none.
    pub fn select(&mut self, entries: &Vec<PresetEntry>, index: usize) -> (r: Option<
        Vec<(Param, Level)>,
    >)
        ensures
            match r {
                Some(settings) => {
                    &&& index < entries@.len()
                    &&& settings@ == stereo_settings(entries@[index as int].preset)
                    &&& final(self).levels == entries@[index as int].preset.bands
                    &&& final(self).tolerances == entries@[index as int].preset.tolerances
                    &&& final(self).selected == Some(index)
                },
                None => index >= entries@.len() && *final(self) == *old(self),
            },
    {
        if index >= entries.len() {
            return None;
        }
        self.levels = entries[index].preset.bands;
        self.tolerances = entries[index].preset.tolerances;
        self.selected = Some(index);
        Some(preset_settings(&entries[index].preset))
    }

    /// Goes back to the first profile, or to a flat target where there is none.
    pub fn reset(&mut self, entries: &Vec<PresetEntry>, tolerances: [Level; 5])
        ensures
            if entries@.len() > 0 {
                &&& final(self).levels == entries@[0].preset.bands
                &&& final(self).tolerances == entries@[0].preset.tolerances
                &&& final(self).selected == Some(0usize)
            } else {
                &&& zeros5(final(self).levels@)
                &&& final(self).tolerances == tolerances
                &&& final(self).selected is None
            },
    {
        if entries.len() > 0 {
            self.levels = entries[0].preset.bands;
            self.tolerances = entries[0].preset.tolerances;
            self.selected = Some(0);
        } else {
            let zero: Level = Level { bits: 0 };
            self.levels = [zero, zero, zero, zero, zero];
            self.tolerances = tolerances;
            self.selected = None;
            proof {
                assert(self.levels@ =~= seq![zero, zero, zero, zero, zero]);
            }
        }
    }

    /// Takes the profile of the input as the target, where listening is on and enough of it
    /// was heard; true where it was taken.
    pub fn apply_analysis(
        &mut self,
        listen: Level,
        samples: Level,
        levels: [Level; 5],
        tolerances: [Level; 5],
    ) -> (taken: bool)
        ensures
            taken == (reads_on(listen) && samples.above(
                Level { bits: MIN_PROFILE_BITS },
            )),
            *final(self) == (if taken {
                Target { levels, tolerances, ..*old(self) }
            } else {
                *old(self)
            }),
    {
        if Level::from_bits(HALF_BITS).ge(listen) {
            return false;
        }
        if samples.gt(Level { bits: MIN_PROFILE_BITS }) {
            self.levels = levels;
            self.tolerances = tolerances;
            true
        } else {
            false
        }
    }
}

/// Whether the analysis may start again: listening is on.
pub fn may_reset_analysis(listen: Level) -> (r: bool)
    ensures
        r == reads_on(listen),
{
    !Level::from_bits(HALF_BITS).ge(listen)
}

/// The name that a profile is saved under: the one given, or a numbered one.
pub open spec fn name_to_save(input: Seq<char>, count: nat) -> Seq<char> {
    if trimmed(input).len() == 0 {
        "User Preset "@ + decimal(count + 1)
    } else {
        trimmed(input)
    }
}

/// The name that a profile is saved under; `count` profiles are there already.
pub fn preset_name(input: &String, count: usize) -> (r: String)
    requires
        count < usize::MAX,
    ensures
        r@ == name_to_save(input@, count as nat),
{
    let t: String = trim_string(input);
    if t.as_str().is_empty() {
        let mut r: String = "User Preset ".to_owned();
        push_decimal(&mut r, count as u64 + 1);
        r
    } else {
        t
    }
}

/// Whether `char::is_alphanumeric` holds of a character.
pub uninterp spec fn alphanumeric(c: char) -> bool;

/// Whether a character is an ASCII letter or digit.
pub open spec fn ascii_alphanumeric(c: char) -> bool {
    ('0' <= c && c <= '9') || ('A' <= c && c <= 'Z') || ('a' <= c && c <= 'z')
}

/// `char::is_alphanumeric`: whether a character is alphabetic or numeric in Unicode.
///
/// Of the ASCII characters these are the letters and the digits.
#[verifier::external_body]
fn is_alphanumeric(c: char) -> (r: bool)
    ensures
        r == alphanumeric(c),
        (c as u32) < 128 ==> r == ascii_alphanumeric(c),
{
    c.is_alphanumeric()
}

/// Whether a character stays in a file name; `alnum` tells whether it is a letter or digit.
pub open spec fn stays(c: char, alnum: bool) -> bool {
    alnum || c == ' ' || c == '-' || c == '_'
}

/// Whether the character stays in a file name.
pub fn keeps_char(c: char, alnum: bool) -> (r: bool)
    ensures
        r == stays(c, alnum),
{
    alnum || c == ' ' || c == '-' || c == '_'
}

/// The characters of a name that stay in a file name.
pub open spec fn safe_chars(name: Seq<char>) -> Seq<char>
    decreases name.len(),
{
    if name.len() == 0 {
        Seq::empty()
    } else {
        let before = safe_chars(name.drop_last());
        if stays(name.last(), alphanumeric(name.last())) {
            before.push(name.last())
        } else {
            before
        }
    }
}

/// The name of the file that a profile is saved in: what stays of its name, and `.md`.
///
/// What stays holds no separator of paths and no dot.
pub fn preset_file_name(name: &String) -> (r: String)
    ensures
        r@ == safe_chars(name@) + ".md"@,
        forall|i: int|
            0 <= i < safe_chars(name@).len() ==> (#[trigger] safe_chars(name@)[i]) != '/'
                && safe_chars(name@)[i] != '\\' && safe_chars(name@)[i] != '.',
{
    let v: Vec<char> = chars_of(name.as_str());
    let mut r: String = String::new();
    proof {
        assert(v@.take(0) =~= Seq::<char>::empty());
    }
    for i in 0..v.len()
        invariant
            v@ == name@,
            r@ == safe_chars(v@.take(i as int)),
            forall|k: int| 0 <= k < r@.len() ==> (#[trigger] r@[k]) != '/' && r@[k] != '\\' && r@[k] != '.',
    {
        let c: char = v[i];
        proof {
            assert(v@.take(i as int + 1).drop_last() == v@.take(i as int));
            assert(v@.take(i as int + 1).last() == c);
        }
        if keeps_char(c, is_alphanumeric(c)) {
            r.push(c);
        }
    }
    proof {
        assert(v@.take(v@.len() as int) == v@);
    }
    r.append(".md");
    r
}

/// What a tick of the editor is to do.
#[derive(Clone, Copy, Debug, PartialEq, Eq, Structural)]
pub struct TickAction {
    /// The loudness offset is added to the output gain and cleared.
    pub apply_offset: bool,
    /// The snapshot is written.
    pub write_snapshot: bool,
}

/// What the snapshot button has shown so far.
#[derive(Clone, Copy, Debug, PartialEq, Eq, Structural)]
pub struct SnapLamp {
    pub snap_active: bool,
    pub blink_counter: u32,
}

impl SnapLamp {
    /// One tick: the lamp follows the capture; a capture that just ended is written where
    /// there is a folder, and an offset found by the loudness measurement is applied.
    pub fn tick(
        &mut self,
        snap_active: bool,
        measuring: bool,
        offset: Level,
        vault_path: &Option<String>,
    ) -> (r: TickAction)
        ensures
            r.apply_offset == (!measuring && offset.absolute().above(
                Level { bits: OFFSET_MIN_BITS },
            )),
            r.write_snapshot == (old(self).snap_active && !snap_active && has_folder(*vault_path)),
            final(self).snap_active == snap_active,
            final(self).blink_counter == (if snap_active {
                if old(self).blink_counter == u32::MAX {
                    0
                } else {
                    old(self).blink_counter + 1
                }
            } else {
                0
            }),
    {
        let write_snapshot: bool = self.snap_active && !snap_active && folder_is_set(vault_path);
        self.snap_active = snap_active;
        self.blink_counter = if snap_active {
            if self.blink_counter == u32::MAX {
                0
            } else {
                self.blink_counter + 1
            }
        } else {
            0
        };
        TickAction {
            apply_offset: !measuring && offset.abs().gt(Level { bits: OFFSET_MIN_BITS }),
            write_snapshot,
        }
    }

    /// Whether the lamp is lit: eight ticks on, eight ticks off.
    pub fn lit(&self) -> (r: bool)
        ensures
            r == (self.snap_active && (self.blink_counter / 8) % 2 == 0),
    {
        self.snap_active && (self.blink_counter / 8) % 2 == 0
    }

    /// What the snapshot button shows.
    pub fn label(&self, vault_path: &Option<String>) -> (r: String)
        ensures
            r@ == (if self.snap_active {
                "ANALYZE..."@
            } else if !has_folder(*vault_path) {
                "SET VAULT"@
            } else {
                "SNAP"@
            }),
    {
        if self.snap_active {
            "ANALYZE...".to_owned()
        } else if !folder_is_set(vault_path) {
            "SET VAULT".to_owned()
        } else {
            "SNAP".to_owned()
        }
    }
}

/// The snapshot button: starts a capture at its first phase, or gives nothing where a folder
/// has to be set first.
pub fn press_snap(vault_path: &Option<String>) -> (r: Option<SnapState>)
    ensures
        r == (if has_folder(*vault_path) {
            Some(SnapState { phase: 1, active: true })
        } else {
            None
        }),
{
    if folder_is_set(vault_path) {
        Some(SnapState { phase: 1, active: true })
    } else {
        None
    }
}

/// A pan as text; `percent` is its magnitude in percent.
pub open spec fn pan_text(pan: Level, percent: Seq<char>) -> Seq<char> {
    if (Level { bits: CENTER_BITS }).above(pan.absolute()) {
        "C"@
    } else if (Level { bits: 0 }).above(pan) {
        "L "@ + percent + "%"@
    } else {
        "R "@ + percent + "%"@
    }
}

/// The pan as text; `percent` is its magnitude in percent.
pub fn format_pan(pan: Level, percent: &str) -> (r: String)
    ensures
        r@ == pan_text(pan, percent@),
{
    if Level::from_bits(CENTER_BITS).gt(pan.abs()) {
        return "C".to_owned();
    }
    let mut r: String = if Level::from_bits(0).gt(pan) {
        "L ".to_owned()
    } else {
        "R ".to_owned()
    };
    r.append(percent);
    r.append("%");
    r
}

} // verus!
