//! What holds of every message to the editor of Aether, and of every action on its panel.

use crate::aether_editor::{kept, AetherEditor, AetherMsg, Effects, Readers};
use crate::aether_laws::{law_entries_hold_their_fields, same_settings, stands_at};
use crate::aether_library::{
    built_in, entries, find_entry, found, names_of, offered, opt_profile, EntryModel, PresetEntry,
};
use crate::aether_panel::{
    curve_key, input_readout, AetherPanel, EqCurveKey, InputHold, SaveTarget, ScanRequest,
    TickReply,
};
use crate::aether_params::{
    band_settings, profile_from_params, profile_settings, AetherParam, AetherParams, Setting,
};
use crate::aether_preset::{AetherProfile, Band};
use crate::host::{automated_all, Edit, ParamValue};
use crate::knob::Gesture;
use crate::level::Level;
use crate::text::{texts, trimmed};
use crate::vault::opt_text;
use vstd::prelude::*;
use vstd::string::*;

verus! {

/// Whether parameters stand at what the calls to the host set.
pub open spec fn calls_made(a: AetherParams, edits: Seq<Edit<AetherParam>>) -> bool {
    forall|i: int|
        0 <= i < edits.len() ==> match #[trigger] edits[i] {
            Edit::Change(p, v) => stands_at(a, p) == v,
            _ => true,
        }
}

/// The calls that make one change.
pub open spec fn one_change(p: AetherParam, v: ParamValue) -> Seq<Edit<AetherParam>> {
    seq![Edit::Begin(p), Edit::Change(p, v), Edit::End(p)]
}

/// The call of a step of a gesture, with the value held between two others.
pub open spec fn one_step(p: AetherParam, g: Gesture, lo: Level, hi: Level, edits: Seq<Edit<AetherParam>>) -> bool {
    &&& edits.len() == 1
    &&& match g {
        Gesture::Start => edits[0] == Edit::Begin(p),
        Gesture::End => edits[0] == Edit::End(p),
        Gesture::Change(v) => edits[0] is Change && {
            &&& v.at_least(lo) && hi.at_least(v) ==> edits[0] == Edit::Change(p, ParamValue::Number(v))
            &&& v.above(hi) ==> edits[0] == Edit::Change(p, ParamValue::Number(hi))
            &&& lo.above(v) ==> edits[0] == Edit::Change(p, ParamValue::Number(lo))
        },
    }
}

proof fn lemma_calls(list: Seq<Setting>, i: int)
    requires
        0 <= i < list.len(),
    ensures
        automated_all(list).len() == 3 * list.len(),
        automated_all(list)[3 * i + 1] == Edit::Change(list[i].0, list[i].1),
    decreases list.len(),
{
    let rest = list.drop_last();
    if rest.len() == 0 {
        assert(automated_all(rest).len() == 0);
    } else {
        lemma_calls(rest, 0);
    }
    if i < rest.len() {
        lemma_calls(rest, i);
        assert(rest[i] == list[i]);
    }
}

proof fn lemma_band_at(bands: Seq<Band>, n: nat, b: int)
    requires
        0 <= b < n <= 5,
    ensures
        band_settings(bands, n).len() == 4 * n,
        band_settings(bands, n)[4 * b] == (AetherParam::BandFreq(b as usize), ParamValue::Number(bands[b].1)),
        band_settings(bands, n)[4 * b + 1] == (AetherParam::BandGain(b as usize), ParamValue::Number(bands[b].2)),
        band_settings(bands, n)[4 * b + 2] == (AetherParam::BandQ(b as usize), ParamValue::Number(bands[b].3)),
        band_settings(bands, n)[4 * b + 3] == (AetherParam::BandType(b as usize), ParamValue::Choice(bands[b].0)),
    decreases n,
{
    if n > 1 {
        lemma_band_at(bands, (n - 1) as nat, 0);
        if b < n - 1 {
            lemma_band_at(bands, (n - 1) as nat, b);
        }
    } else {
        assert(band_settings(bands, 0).len() == 0);
    }
}

/// Selecting a preset sets every parameter to what the preset holds: once the calls are made, the
/// profile of the parameters is that of the preset.  Its name goes to the name field and, with the
/// folder, to the configuration, and the fields are filled again.
pub proof fn law_a_selected_preset_is_what_plays<
    D: Fn(Level) -> Level,
    N: Fn(&String) -> Option<Level>,
    J: Fn(&String, &String) -> String,
>(
    e: &mut AetherEditor,
    idx: usize,
    in_peak: Level,
    read: &Readers<D, N, J>,
    r: Effects,
    after: &AetherParams,
    name: &String,
    q: AetherProfile,
)
    requires
        idx < old(e).presets@.len(),
        call_ensures(
            AetherEditor::update::<D, N, J>,
            (e, AetherMsg::SelectPreset(idx), in_peak, read),
            r,
        ),
        calls_made(*after, r.edits@),
        call_ensures(profile_from_params, (after, name), q),
    ensures
        same_settings(q, old(e).presets@[idx as int].profile),
        final(e).preset_name_input@ == old(e).presets@[idx as int].profile.name@,
        final(e).selected_preset_index == Some(idx),
        r.refill,
        r.scan is None,
        r.file is None,
        r.config is Some,
        r.config->0.last_preset is Some && r.config->0.last_preset->0@
            == old(e).presets@[idx as int].profile.name@,
        opt_text(r.config->0.vault_path) == opt_text(old(e).vault_path),
        final(e).presets == old(e).presets,
{
    let p = old(e).presets@[idx as int].profile;
    let list = profile_settings(p@);
    let calls = r.edits@;
    assert(r@.edits == calls);
    assert(calls == automated_all(list));
    lemma_band_at(p.bands@, 5, 0);
    assert(list.len() == 25);
    assert forall|i: int| 0 <= i < 25 implies stands_at(*after, (#[trigger] list[i]).0)
        == list[i].1 by {
        lemma_calls(list, i);
        assert(calls[3 * i + 1] == Edit::Change(list[i].0, list[i].1));
    }
    assert(stands_at(*after, list[20].0) == list[20].1);
    assert(stands_at(*after, list[21].0) == list[21].1);
    assert(stands_at(*after, list[22].0) == list[22].1);
    assert(stands_at(*after, list[23].0) == list[23].1);
    assert(stands_at(*after, list[24].0) == list[24].1);
    assert forall|b: int| 0 <= b < 5 implies #[trigger] q.bands@[b] == p.bands@[b] by {
        lemma_band_at(p.bands@, 5, b);
        assert(stands_at(*after, list[4 * b].0) == list[4 * b].1);
        assert(stands_at(*after, list[4 * b + 1].0) == list[4 * b + 1].1);
        assert(stands_at(*after, list[4 * b + 2].0) == list[4 * b + 2].1);
        assert(stands_at(*after, list[4 * b + 3].0) == list[4 * b + 3].1);
        assert(q@.bands == after.bands@);
    }
    assert(q@.cf_angle == after.cf_angle);
    assert(r@.config is Some);
}

/// A preset that does not exist is not selected.
pub proof fn law_a_missing_preset_is_not_selected<
    D: Fn(Level) -> Level,
    N: Fn(&String) -> Option<Level>,
    J: Fn(&String, &String) -> String,
>(e: &mut AetherEditor, idx: usize, in_peak: Level, read: &Readers<D, N, J>, r: Effects)
    requires
        idx >= old(e).presets@.len(),
        call_ensures(
            AetherEditor::update::<D, N, J>,
            (e, AetherMsg::SelectPreset(idx), in_peak, read),
            r,
        ),
    ensures
        *final(e) == *old(e),
        r.edits@.len() == 0 && !r.refill && r.scan is None && r.config is None && r.file is None,
{
    assert(r@.edits.len() == 0);
    assert(opt_text(r.scan) is None);
    assert(r@.config is None && r@.file is None);
}

/// A reset sets the built-in preset and fills the fields again.
pub proof fn law_a_reset_plays_the_built_in_preset<
    D: Fn(Level) -> Level,
    N: Fn(&String) -> Option<Level>,
    J: Fn(&String, &String) -> String,
>(
    e: &mut AetherEditor,
    in_peak: Level,
    read: &Readers<D, N, J>,
    r: Effects,
    after: &AetherParams,
    b: int,
)
    requires
        call_ensures(AetherEditor::update::<D, N, J>, (e, AetherMsg::ResetAll, in_peak, read), r),
        calls_made(*after, r.edits@),
        0 <= b < 5,
    ensures
        after.bands@[b].2.bits == 0,
        after.cf_amount.bits == 0,
        after.gain.bits == 0,
        after.blend.bits == 0x42c8_0000,
        r.refill,
        *final(e) == *old(e),
{
    let flat = crate::aether_library::harman_flat();
    let list = profile_settings(flat);
    crate::aether_params::law_a_reset_is_the_built_in_preset();
    let calls = r.edits@;
    assert(r@.edits == calls);
    assert(calls == automated_all(list));
    lemma_band_at(flat.bands, 5, b);
    assert(list.len() == 25);
    assert forall|i: int| 0 <= i < 25 implies stands_at(*after, (#[trigger] list[i]).0)
        == list[i].1 by {
        lemma_calls(list, i);
        assert(calls[3 * i + 1] == Edit::Change(list[i].0, list[i].1));
    }
    assert(stands_at(*after, list[20].0) == list[20].1);
    assert(stands_at(*after, list[22].0) == list[22].1);
    assert(stands_at(*after, list[24].0) == list[24].1);
    assert(stands_at(*after, list[4 * b + 1].0) == list[4 * b + 1].1);
}

/// Every knob changes its own parameter, held inside its range: the blend and the crossfeed amount
/// from 0 to 100, the angle from 30 to 75, the gain from -12 to 12.  The cycling buttons go one
/// choice further, the bypass button flips the bypass, and none of these touches anything else.
pub proof fn law_every_control_changes_its_parameter<
    D: Fn(Level) -> Level,
    N: Fn(&String) -> Option<Level>,
    J: Fn(&String, &String) -> String,
>(
    e: &mut AetherEditor,
    m: AetherMsg,
    in_peak: Level,
    read: &Readers<D, N, J>,
    r: Effects,
    g: Gesture,
    b: usize,
)
    requires
        call_ensures(AetherEditor::update::<D, N, J>, (e, m, in_peak, read), r),
        b < 5,
    ensures
        m == AetherMsg::BlendGesture(g) ==> one_step(
            AetherParam::Blend,
            g,
            Level { bits: 0 },
            Level { bits: 0x42c8_0000 },
            r.edits@,
        ),
        m == AetherMsg::CfAngleGesture(g) ==> one_step(
            AetherParam::CfAngle,
            g,
            Level { bits: 0x41f0_0000 },
            Level { bits: 0x4296_0000 },
            r.edits@,
        ),
        m == AetherMsg::CfAmountGesture(g) ==> one_step(
            AetherParam::CfAmount,
            g,
            Level { bits: 0 },
            Level { bits: 0x42c8_0000 },
            r.edits@,
        ),
        m == AetherMsg::GainGesture(g) ==> one_step(
            AetherParam::Gain,
            g,
            Level { bits: 0xc140_0000 },
            Level { bits: 0x4140_0000 },
            r.edits@,
        ),
        m == AetherMsg::BypassToggled ==> r.edits@ == one_change(
            AetherParam::Bypass,
            ParamValue::Switch(!old(e).params.bypass),
        ),
        m == AetherMsg::RealismCycled && 0 <= old(e).params.cf_realism < 3 ==> r.edits@ == one_change(
            AetherParam::CfRealism,
            ParamValue::Choice(
                if old(e).params.cf_realism == 2 {
                    0
                } else {
                    (old(e).params.cf_realism + 1) as i32
                },
            ),
        ),
        m == AetherMsg::EqTypeCycled(b) && 0 <= old(e).params.bands@[b as int].0 < 4 ==> r.edits@
            == one_change(
            AetherParam::BandType(b),
            ParamValue::Choice(
                if old(e).params.bands@[b as int].0 == 3 {
                    0
                } else {
                    (old(e).params.bands@[b as int].0 + 1) as i32
                },
            ),
        ),
        m is BlendGesture || m is CfAngleGesture || m is CfAmountGesture || m is GainGesture || m
            is BypassToggled || m is RealismCycled || m is EqTypeCycled ==> *final(e) == *old(e)
            && !r.refill && r.scan is None && r.config is None && r.file is None,
{
    let v = r@;
    assert(v.edits == r.edits@);
    assert(opt_text(r.scan) == v.scan);
}

/// A text in a field stays in that field, and where it reads as a number it changes the parameter
/// of the field: the frequency, the gain or the quality of its band, inside its range.
pub proof fn law_a_text_changes_its_own_field<
    D: Fn(Level) -> Level,
    N: Fn(&String) -> Option<Level>,
    J: Fn(&String, &String) -> String,
>(
    e: &mut AetherEditor,
    b: usize,
    f: usize,
    s: String,
    in_peak: Level,
    read: &Readers<D, N, J>,
    r: Effects,
    k: int,
)
    requires
        b < 5 && f < 3,
        old(e).wf(),
        call_ensures(
            AetherEditor::update::<D, N, J>,
            (e, AetherMsg::EqTextChanged(b, f, s), in_peak, read),
            r,
        ),
        0 <= k < 15,
    ensures
        final(e).eq_text@.len() == 15,
        k == b * 3 + f ==> final(e).eq_text@[k] == s,
        k != b * 3 + f ==> final(e).eq_text@[k] == old(e).eq_text@[k],
        exists|t: String, v: Option<Level>|
            {
                &&& t@ == trimmed(s@)
                &&& #[trigger] call_ensures(read.number, (&t,), v)
                &&& v is None ==> r.edits@.len() == 0
                &&& v is Some ==> r.edits@.len() == 3 && r.edits@[1] is Change
                &&& v is Some && f == 0 ==> r.edits@[0] == Edit::Begin(AetherParam::BandFreq(b))
                    && r.edits@[2] == Edit::End(AetherParam::BandFreq(b))
                &&& v is Some && f == 1 ==> r.edits@[0] == Edit::Begin(AetherParam::BandGain(b))
                    && r.edits@[2] == Edit::End(AetherParam::BandGain(b))
                &&& v is Some && f == 2 ==> r.edits@[0] == Edit::Begin(AetherParam::BandQ(b))
                    && r.edits@[2] == Edit::End(AetherParam::BandQ(b))
                &&& v is Some && f == 0 && v->0.at_least(Level { bits: 0x41a0_0000 }) && (Level {
                    bits: 0x469c_4000,
                }).at_least(v->0) ==> r.edits@[1] == Edit::Change(
                    AetherParam::BandFreq(b),
                    ParamValue::Number(v->0),
                )
                &&& v is Some && f == 1 && v->0.at_least(Level { bits: 0xc140_0000 }) && (Level {
                    bits: 0x4140_0000,
                }).at_least(v->0) ==> r.edits@[1] == Edit::Change(
                    AetherParam::BandGain(b),
                    ParamValue::Number(v->0),
                )
                &&& v is Some && f == 2 && v->0.at_least(Level { bits: 0x3e99_999a }) && (Level {
                    bits: 0x4100_0000,
                }).at_least(v->0) ==> r.edits@[1] == Edit::Change(
                    AetherParam::BandQ(b),
                    ParamValue::Number(v->0),
                )
            },
{
    let x = r@;
    assert(x.edits == r.edits@);
}

/// A tick shows the peak and looks at the folder every 150 ticks, without any other effect.
pub proof fn law_a_tick_looks_at_the_folder_now_and_again<
    D: Fn(Level) -> Level,
    N: Fn(&String) -> Option<Level>,
    J: Fn(&String, &String) -> String,
>(e: &mut AetherEditor, in_peak: Level, read: &Readers<D, N, J>, r: Effects)
    requires
        old(e).wf(),
        call_ensures(AetherEditor::update::<D, N, J>, (e, AetherMsg::Tick, in_peak, read), r),
    ensures
        final(e).in_peak == in_peak,
        old(e).preset_refresh_counter < 149 ==> final(e).preset_refresh_counter
            == old(e).preset_refresh_counter + 1 && r.scan is None,
        old(e).preset_refresh_counter == 149 ==> final(e).preset_refresh_counter == 0 && opt_text(
            r.scan,
        ) == opt_text(old(e).vault_path),
        r.edits@.len() == 0 && !r.refill && r.config is None && r.file is None,
        final(e).presets == old(e).presets,
        final(e).params == old(e).params,
{
    let x = r@;
    assert(x.edits.len() == 0);
    assert(opt_text(r.scan) == x.scan);
    assert(x.config is None && x.file is None);
}

/// Saving writes a file under the name in the name field, appends a preset that holds what the
/// parameters stand at, and selects it; without a folder the set-up opens instead.
pub proof fn law_saving_keeps_what_plays<
    D: Fn(Level) -> Level,
    N: Fn(&String) -> Option<Level>,
    J: Fn(&String, &String) -> String,
>(e: &mut AetherEditor, in_peak: Level, read: &Readers<D, N, J>, r: Effects)
    requires
        call_ensures(AetherEditor::update::<D, N, J>, (e, AetherMsg::SavePreset, in_peak, read), r),
    ensures
        r.edits@.len() == 0 && !r.refill && r.scan is None,
        old(e).vault_path is None ==> final(e).show_setup && r.file is None && r.config is None
            && final(e).presets == old(e).presets,
        old(e).vault_path is Some ==> {
            let n = old(e).presets@.len();
            &&& r.file is Some
            &&& r.file->0.folder@ == old(e).vault_path->0@
            &&& r.file->0.file@ == old(e).preset_name_input@ + ".md"@
            &&& r.config is Some
            &&& opt_text(r.config->0.vault_path) == Some(old(e).vault_path->0@)
            &&& opt_text(r.config->0.last_preset) == Some(old(e).preset_name_input@)
            &&& final(e).presets@.len() == n + 1
            &&& final(e).presets@[n as int].name@ == old(e).preset_name_input@
            &&& final(e).presets@[n as int].path is Some
            &&& final(e).presets@[n as int].profile.cf_amount == old(e).params.cf_amount
            &&& final(e).presets@[n as int].profile.cf_angle == old(e).params.cf_angle
            &&& final(e).presets@[n as int].profile.cf_realism == old(e).params.cf_realism
            &&& final(e).presets@[n as int].profile.blend == old(e).params.blend
            &&& final(e).presets@[n as int].profile.gain == old(e).params.gain
            &&& final(e).presets@[n as int].profile.bands@ == old(e).params.bands@
            &&& final(e).presets@[n as int].profile.name@ == old(e).preset_name_input@
            &&& final(e).selected_preset_index is Some && final(e).selected_preset_index->0 == n
        },
{
    let x = r@;
    assert(x.edits.len() == 0);
    assert(opt_text(r.scan) == x.scan);
    if old(e).vault_path is Some {
        let a = entries(final(e).presets@);
        let n = old(e).presets@.len() as int;
        assert(entries(old(e).presets@).len() == n);
        assert(a.len() == n + 1);
        assert(a[n] == final(e).presets@[n]@);
        assert(final(e).presets@[n]@.profile == final(e).presets@[n].profile@);
        assert(opt_text(final(e).presets@[n].path) is Some);
    } else {
        assert(x.config is None && x.file is None);
    }
}

/// The set-up: it opens with the folder in its field and closes again, and what is typed stays in
/// the field until it is saved.  Saving takes over the folder, starts the list of presets again,
/// scans it and keeps it in the configuration without touching the last preset there.
pub proof fn law_the_set_up_changes_the_folder<
    D: Fn(Level) -> Level,
    N: Fn(&String) -> Option<Level>,
    J: Fn(&String, &String) -> String,
>(e: &mut AetherEditor, m: AetherMsg, in_peak: Level, read: &Readers<D, N, J>, r: Effects, s: String)
    requires
        call_ensures(AetherEditor::update::<D, N, J>, (e, m, in_peak, read), r),
    ensures
        m is SetupToggled ==> final(e).show_setup == !old(e).show_setup && final(e).vault_path
            == old(e).vault_path && r.edits@.len() == 0 && r.config is None,
        m is SetupToggled && !old(e).show_setup ==> (old(e).vault_path is Some ==> final(e).vault_path_input@ == old(e).vault_path->0@) && (old(e).vault_path is None ==> final(e).vault_path_input@.len() == 0),
        m == AetherMsg::VaultPathChanged(s) ==> final(e).vault_path_input == s && final(e).vault_path == old(e).vault_path && r.edits@.len() == 0 && r.config is None,
        m == AetherMsg::PresetNameChanged(s) ==> final(e).preset_name_input == s && r.edits@.len()
            == 0 && r.config is None,
        m is SaveVaultPath ==> {
            let t = trimmed(old(e).vault_path_input@);
            &&& !final(e).show_setup
            &&& t.len() == 0 ==> final(e).vault_path is None && r.scan is None
            &&& t.len() > 0 ==> final(e).vault_path is Some && final(e).vault_path->0@ == t && r.scan
                is Some && r.scan->0@ == t
            &&& r.config is Some
            &&& opt_text(r.config->0.vault_path) == opt_text(final(e).vault_path)
            &&& r.config->0.last_preset is None
            &&& final(e).presets@.len() == 1
            &&& final(e).presets@[0].name@ == "Harman Flat"@
            &&& final(e).selected_preset_index == Some(0usize)
            &&& r.edits@.len() == 0
        },
{
    let x = r@;
    assert(x.edits == r.edits@);
    assert(opt_text(r.scan) == x.scan);
    if m is SaveVaultPath {
        assert(entries(final(e).presets@).len() == final(e).presets@.len());
        assert(entries(final(e).presets@)[0] == final(e).presets@[0]@);
        assert(x.config is Some);
        assert(opt_text(r.config->0.last_preset) is None);
    }
}

/// The held peak: a louder one is held for 90 ticks, then it falls, though not below the peak.
pub proof fn law_a_peak_is_held_for_ninety_ticks<D: Fn(Level) -> Level>(
    h: &mut InputHold,
    peak: Level,
    decay: D,
    u: (),
)
    requires
        call_ensures(InputHold::tick::<D>, (h, peak, decay), u),
    ensures
        peak.above(old(h).level) ==> final(h).level == peak && final(h).ticks == 90,
        !peak.above(old(h).level) && old(h).ticks > 0 ==> final(h).level == old(h).level && final(h).ticks == old(h).ticks - 1,
        !peak.above(old(h).level) && old(h).ticks == 0 ==> final(h).ticks == 0 && exists|d: Level|
            #[trigger]
            call_ensures(decay, (old(h).level,), d) && (d.at_least(peak) ==> final(h).level == d)
                && (peak.above(d) ==> final(h).level == peak),
{
    if !peak.above(old(h).level) && old(h).ticks == 0 {
        let d = choose|d: Level| #[trigger]
            call_ensures(decay, (old(h).level,), d) && *final(h) == (InputHold {
                level: d.larger(peak),
                ticks: 0,
            });
        assert(call_ensures(decay, (old(h).level,), d));
    }
}

/// A curve is the same exactly where the sample rate and every band are.
pub proof fn law_a_curve_depends_on_rate_and_bands(a: &EqCurveKey, b: &EqCurveKey, r: bool)
    requires
        call_ensures(EqCurveKey::equals, (a, b), r),
    ensures
        r <==> a.sr.same(b.sr) && forall|i: int|
            0 <= i < 5 ==> (#[trigger] a.bands@[i]).0 == b.bands@[i].0 && a.bands@[i].1.same(
                b.bands@[i].1,
            ) && a.bands@[i].2.same(b.bands@[i].2) && a.bands@[i].3.same(b.bands@[i].3),
{
    if a.sr.same(b.sr) && forall|i: int|
        0 <= i < 5 ==> (#[trigger] a.bands@[i]).0 == b.bands@[i].0 && a.bands@[i].1.same(
            b.bands@[i].1,
        ) && a.bands@[i].2.same(b.bands@[i].2) && a.bands@[i].3.same(b.bands@[i].3) {
        assert(crate::aether_panel::same_key(*a, *b));
    }
}

/// The curve is that of the bands as they are set, at a sample rate of at least 1.
pub proof fn law_the_curve_is_that_of_the_bands(p: &AetherParams, sr: Level, k: EqCurveKey)
    requires
        call_ensures(curve_key, (p, sr), k),
    ensures
        k.bands@ == p.bands@,
        sr.at_least(Level { bits: 0x3f80_0000 }) ==> k.sr == sr,
        !sr.at_least(Level { bits: 0x3f80_0000 }) ==> k.sr.bits == 0x3f80_0000,
{
}

/// A change of the folder calls off the scans under way and asks for one of the new folder, whose
/// presets are listed once it is done; without a folder only the built-in preset stays listed.
pub proof fn law_a_new_folder_is_scanned(p: &mut AetherPanel, r: TickReply)
    requires
        call_ensures(AetherPanel::watch_vault, (p,), r),
    ensures
        opt_text(old(p).last_vault_path) == opt_text(old(p).vault_path) ==> *final(p) == *old(p)
            && r.scan is None && !r.changed,
        opt_text(old(p).last_vault_path) != opt_text(old(p).vault_path) ==> {
            &&& opt_text(final(p).last_vault_path) == opt_text(old(p).vault_path)
            &&& opt_text(final(p).vault_path) == opt_text(old(p).vault_path)
            &&& !final(p).pending.ready
            &&& final(p).pending.presets is None
            &&& old(p).vault_path is Some ==> r.scan is Some && r.scan->0.folder@
                == old(p).vault_path->0@ && r.scan->0.generation == final(p).pending.generation
                && !r.changed && final(p).cache == old(p).cache
            &&& old(p).vault_path is None ==> r.scan is None && final(p).cache@.len() == 0
                && texts(final(p).preset_opts@) == seq!["Harman Flat"@] && texts(
                final(p).telemetry.preset_names@,
            ) == seq!["Harman Flat"@]
        },
        r.changed <==> texts(final(p).telemetry.preset_names@) != texts(
            old(p).telemetry.preset_names@,
        ),
        final(p).preset_name == old(p).preset_name,
        final(p).hold == old(p).hold,
{
    assert(names_of(built_in()) =~= seq!["Harman Flat"@]);
    let x = final(p).pending@;
    assert(x.ready == final(p).pending.ready && x.generation == final(p).pending.generation);
}

/// The presets of a finished scan are listed behind the built-in one, by their names, where it is
/// the scan that is waited for; else nothing changes.
pub proof fn law_a_finished_scan_lists_its_presets(p: &mut AetherPanel, changed: bool, i: int)
    requires
        call_ensures(AetherPanel::apply_scanned_presets, (p,), changed),
        0 <= i < final(p).cache@.len(),
    ensures
        !final(p).pending.ready,
        final(p).pending.generation == old(p).pending.generation,
        old(p).pending.ready && old(p).pending.presets is Some && (old(p).pending.presets->0).0
            == old(p).pending.generation ==> {
            let list = (old(p).pending.presets->0).1@;
            &&& final(p).cache@.len() == list.len()
            &&& final(p).cache@[i].name@ == list[i].name@
            &&& same_settings(final(p).cache@[i].profile, list[i].profile)
            &&& final(p).preset_opts@.len() == list.len() + 1
            &&& final(p).preset_opts@[0]@ == "Harman Flat"@
            &&& final(p).preset_opts@[i + 1]@ == list[i].name@
            &&& final(p).telemetry.preset_names@.len() == list.len() + 1
            &&& final(p).telemetry.preset_names@[i + 1]@ == list[i].name@
        },
        !(old(p).pending.ready && old(p).pending.presets is Some && (old(p).pending.presets->0).0
            == old(p).pending.generation) ==> final(p).cache == old(p).cache && final(p).preset_opts
            == old(p).preset_opts && final(p).telemetry == old(p).telemetry && !changed,
        changed <==> texts(final(p).telemetry.preset_names@) != texts(
            old(p).telemetry.preset_names@,
        ),
{
    let x = final(p).pending@;
    let y = old(p).pending@;
    assert(x.ready == final(p).pending.ready && x.generation == final(p).pending.generation);
    assert(y.ready == old(p).pending.ready && y.generation == old(p).pending.generation);
    if old(p).pending.ready && old(p).pending.presets is Some && (old(p).pending.presets->0).0
        == old(p).pending.generation {
        let list = (old(p).pending.presets->0).1@;
        assert(y.arrived() == Some(entries(list)));
        law_entries_hold_their_fields(final(p).cache@, list, i);
        let names = offered(entries(list));
        assert(names.len() == list.len() + 1);
        assert(names[0] == "Harman Flat"@);
        assert(entries(list)[i] == list[i]@);
        assert(names[i + 1] == list[i].name@);
        assert(texts(final(p).preset_opts@).len() == final(p).preset_opts@.len());
        assert(texts(final(p).preset_opts@)[0] == final(p).preset_opts@[0]@);
        assert(texts(final(p).preset_opts@)[i + 1] == final(p).preset_opts@[i + 1]@);
        let shown = final(p).telemetry.preset_names@;
        assert(texts(shown).len() == shown.len());
        assert(texts(shown)[i + 1] == shown[i + 1]@);
    }
}

/// Whether a preset in a list holds what parameters stand at.
pub open spec fn holds_params(e: PresetEntry, a: AetherParams) -> bool {
    &&& e.profile.bands@ == a.bands@
    &&& e.profile.cf_angle == a.cf_angle
    &&& e.profile.cf_amount == a.cf_amount
    &&& e.profile.cf_realism == a.cf_realism
    &&& e.profile.blend == a.blend
    &&& e.profile.gain == a.gain
}

/// A saved preset is offered and can be picked at once: a pick of its name gives what the
/// parameters stood at, and it takes the place of a preset of the same name.
pub proof fn law_a_saved_preset_can_be_picked(
    p: &mut AetherPanel,
    path: String,
    params: &AetherParams,
    scan: Option<ScanRequest>,
    q: &mut AetherPanel,
    name: &String,
    scanned: &Vec<PresetEntry>,
    r: Option<AetherProfile>,
)
    requires
        call_ensures(AetherPanel::saved, (p, path, params), scan),
        entries(old(q).cache@) == entries(final(p).cache@),
        name@ == old(p).preset_name@,
        call_ensures(AetherPanel::pick, (q, name, scanned), r),
    ensures
        r is Some,
        r->0.bands@ == params.bands@,
        r->0.cf_angle == params.cf_angle,
        r->0.cf_amount == params.cf_amount,
        r->0.cf_realism == params.cf_realism,
        r->0.blend == params.blend,
        r->0.gain == params.gain,
        texts(final(p).preset_opts@).contains(name@),
        old(p).vault_path is Some ==> scan is Some && scan->0.folder@ == old(p).vault_path->0@
            && scan->0.generation == final(p).pending.generation,
        old(p).vault_path is None ==> scan is None,
        final(q).preset_name@ == name@,
{
    let e = EntryModel {
        name: old(p).preset_name@,
        path: Some(path@),
        profile: crate::aether_params::profile_at(*params, old(p).preset_name@),
    };
    let list = entries(old(p).cache@);
    crate::aether_panel::law_saved_presets_are_found(list, e, e.name);
    assert(found(entries(old(q).cache@), name@) == Some(e.profile));
    assert(opt_profile(r) == Some(e.profile));
    assert(r->0@ == e.profile);
    assert(r->0@.bands == params.bands@);
    let names = texts(old(p).preset_opts@);
    if !names.contains(name@) {
        assert(names.push(name@).last() == name@);
        assert(names.push(name@)[names.len() as int] == name@);
    }
    let x = final(p).pending@;
    assert(x.generation == final(p).pending.generation);
}

/// A pick gives the first preset of that name in the list at hand, else the built-in one or the
/// first of that name in the folder, and puts the name into the name field.
pub proof fn law_a_pick_takes_the_list_at_hand_first(
    p: &mut AetherPanel,
    name: &String,
    scanned: &Vec<PresetEntry>,
    r: Option<AetherProfile>,
    at: Option<usize>,
    other: Option<AetherProfile>,
    needs: bool,
)
    requires
        call_ensures(AetherPanel::pick, (p, name, scanned), r),
        call_ensures(find_entry, (&old(p).cache, name), at),
        call_ensures(crate::aether_library::find_profile, (name, scanned), other),
        call_ensures(AetherPanel::pick_needs_scan, (old(p), name), needs),
    ensures
        at is Some ==> r is Some && same_settings(r->0, old(p).cache@[at->0 as int].profile),
        at is None ==> (r is Some <==> other is Some),
        at is None && r is Some ==> same_settings(r->0, other->0),
        final(p).preset_name@ == name@,
        final(p).cache == old(p).cache,
        needs <==> at is None && name@ != "Harman Flat"@,
{
    let list = entries(old(p).cache@);
    match at {
        Some(k) => {
            assert(found(list, name@) == Some(list[k as int].profile));
            assert(list[k as int] == old(p).cache@[k as int]@);
            assert(r->0@ == old(p).cache@[k as int].profile@);
            assert(r->0@.bands == old(p).cache@[k as int].profile@.bands);
        },
        None => {
            assert(found(list, name@) is None);
            if r is Some {
                assert(r->0@ == other->0@);
                assert(r->0@.bands == other->0@.bands);
            }
        },
    }
    let b = built_in();
    crate::text::lemma_first_place(names_of(b), name@, 1);
    assert(names_of(b)[0] == "Harman Flat"@);
}

/// A preset without a name is not saved; any other is saved under its name, to the folder where
/// one is set.
pub proof fn law_a_preset_is_saved_under_its_name(p: &AetherPanel, r: Option<SaveTarget>)
    requires
        call_ensures(AetherPanel::save_target, (p,), r),
    ensures
        r is Some <==> p.preset_name@.len() > 0,
        r is Some ==> r->0.file@ == p.preset_name@ + ".md"@,
        r is Some && p.vault_path is Some && p.vault_path->0@.len() > 0 ==> r->0.folder is Some
            && r->0.folder->0@ == p.vault_path->0@,
        r is Some && (p.vault_path is None || p.vault_path->0@.len() == 0) ==> r->0.folder is None,
{
}

/// The folder in the field is taken over without the white space around it, and none where nothing
/// is left; the set-up closes.
pub proof fn law_the_panel_takes_over_its_folder(p: &mut AetherPanel, u: ())
    requires
        call_ensures(AetherPanel::save_vault_path, (p,), u),
    ensures
        !final(p).show_setup,
        trimmed(old(p).vault_path_input@).len() == 0 ==> final(p).vault_path is None,
        trimmed(old(p).vault_path_input@).len() > 0 ==> final(p).vault_path is Some && final(p).vault_path->0@ == trimmed(old(p).vault_path_input@),
        final(p).cache == old(p).cache,
{
}

/// The input meter shows dashes down from -90 dB, and else the mark, the level and its unit.
pub proof fn law_silence_is_shown_as_dashes(level: Level, text: &str, mark: &str, r: String)
    requires
        call_ensures(input_readout, (level, text, mark), r),
    ensures
        (Level { bits: 0xc2b4_0000 }).at_least(level) ==> r@ == "--"@,
        !(Level { bits: 0xc2b4_0000 }).at_least(level) ==> r@ == mark@ + text@ + " dB"@,
{
}

proof fn lemma_kept(list: Seq<EntryModel>, n: nat)
    requires
        n <= list.len(),
    ensures
        kept(list, n).len() <= n,
        forall|i: int|
            0 <= i < kept(list, n).len() ==> (#[trigger] kept(list, n)[i]).path is None
                && list.contains(kept(list, n)[i]),
        forall|k: int|
            0 <= k < n && (#[trigger] list[k]).path is None ==> kept(list, n).contains(list[k]),
    decreases n,
{
    if n > 0 {
        lemma_kept(list, (n - 1) as nat);
        let before = kept(list, (n - 1) as nat);
        let now = kept(list, n);
        assert forall|i: int| 0 <= i < now.len() implies (#[trigger] now[i]).path is None
            && list.contains(now[i]) by {
            if i < before.len() {
                assert(now[i] == before[i]);
            } else {
                assert(now[i] == list[n - 1]);
            }
        }
        assert forall|k: int| 0 <= k < n && (#[trigger] list[k]).path is None implies now.contains(
            list[k],
        ) by {
            if k < n - 1 {
                let i = choose|i: int| 0 <= i < before.len() && before[i] == list[k];
                assert(now[i] == list[k]);
            } else {
                assert(now.last() == list[k]);
            }
        }
    }
}

/// A list that is brought up to date keeps what comes from no file, drops all else, and ends with
/// what was found in the folder, in its order.
pub proof fn law_a_list_follows_its_folder(
    e: &mut AetherEditor,
    scanned: &Vec<PresetEntry>,
    u: (),
    i: int,
    k: int,
)
    requires
        call_ensures(AetherEditor::refresh, (e, scanned), u),
    ensures
        final(e).presets@.len() >= scanned@.len(),
        0 <= i < scanned@.len() ==> final(e).presets@[final(e).presets@.len() - scanned@.len() + i]@
            == scanned@[i]@,
        0 <= i < final(e).presets@.len() - scanned@.len() ==> final(e).presets@[i].path is None,
        0 <= k < old(e).presets@.len() && old(e).presets@[k].path is None ==> exists|j: int|
            0 <= j < final(e).presets@.len() && (#[trigger] final(e).presets@[j])@ == old(e).presets@[k]@,
{
    let a = entries(old(e).presets@);
    let b = entries(final(e).presets@);
    let s = entries(scanned@);
    let keep = kept(a, a.len());
    lemma_kept(a, a.len());
    assert(b == keep + s);
    assert(b.len() == final(e).presets@.len());
    assert(s.len() == scanned@.len());
    if 0 <= i < s.len() {
        let j = b.len() - s.len() + i;
        assert(b[j] == s[i]);
        assert(b[j] == final(e).presets@[j]@);
        assert(s[i] == scanned@[i]@);
    }
    if 0 <= i < keep.len() {
        assert(b[i] == keep[i]);
        assert(b[i] == final(e).presets@[i]@);
        assert(keep[i].path is None);
    }
    if 0 <= k < a.len() && old(e).presets@[k].path is None {
        assert(a[k] == old(e).presets@[k]@);
        let j = choose|j: int| 0 <= j < keep.len() && keep[j] == a[k];
        assert(b[j] == keep[j]);
        assert(b[j] == final(e).presets@[j]@);
    }
}

/// The chosen preset is told by its name, where there is one; a name is found at its first place.
pub proof fn law_the_chosen_name_is_that_of_the_preset(
    e: &AetherEditor,
    r: Option<String>,
    names: Vec<String>,
    i: int,
)
    requires
        call_ensures(AetherEditor::selected_name, (e,), r),
        call_ensures(AetherEditor::preset_names, (e,), names),
        0 <= i < e.presets@.len(),
    ensures
        e.selected_preset_index == Some(i as usize) && i <= usize::MAX ==> r is Some && r->0@
            == e.presets@[i].name@,
        e.selected_preset_index is None ==> r is None,
        names@.len() == e.presets@.len(),
        names@[i]@ == e.presets@[i].name@,
{
    let m = entries(e.presets@);
    assert(m.len() == e.presets@.len());
    assert(m[i] == e.presets@[i]@);
    assert(texts(names@) == names_of(m));
    assert(texts(names@).len() == names@.len());
    assert(texts(names@)[i] == names@[i]@);
    assert(names_of(m)[i] == m[i].name);
}

} // verus!
