//! What holds of the panel of Equilibrium: of its parameters, its profiles and its buttons.

use crate::aurum_laws::lemma_automated_all;
use crate::equilibrium_editor::{
    format_pan, list_places, load_presets, places, preset_file_name, preset_name, preset_settings,
    press_snap, safe_chars, EqPreset, PresetEntry, SnapLamp, Target, TickAction,
};
use crate::equilibrium_egui::{fills_from_zero, loud_label, lx_hslider, lx_toggle, SliderResponse};
use crate::equilibrium_panel::{
    apply_offset, held_gain, loud_button, press_loud, reset_analysis, reset_changes, reset_edits,
    switch_label, EqFeed, EqOutcome, EqPanel, FreshAnalysis, LoudButton, PresetList, ProfileToSave,
    ResetAll, StereoSettings,
};
use crate::equilibrium_params::{
    law_names_read_back, param_by_name, param_range, reset_targets, reset_values, switches_to_reset,
    EquilibriumParams, Param,
};
use crate::host::{Edit, ParamValue};
use crate::level::Level;
use crate::snapshot::SnapState;
use crate::text::{decimal, trim_string};
use crate::wide::Wide;
use vstd::prelude::*;
use vstd::string::*;

verus! {

/// Setting a parameter changes its own value and no other; a switch is on unless the number is a
/// zero.
pub proof fn law_every_parameter_has_its_own_value(
    e: &mut EquilibriumParams,
    p: Param,
    value: Wide,
    u: (),
    zero: bool,
)
    requires
        call_ensures(EquilibriumParams::set, (e, p, value), u),
        zero == (value.bits == 0 || value.bits == 0x8000_0000_0000_0000),
    ensures
        final(e).low_gain == (if p == Param::LowGain {
            value
        } else {
            old(e).low_gain
        }),
        final(e).bass_gain == (if p == Param::BassGain {
            value
        } else {
            old(e).bass_gain
        }),
        final(e).mid_gain == (if p == Param::MidGain {
            value
        } else {
            old(e).mid_gain
        }),
        final(e).high_mid_gain == (if p == Param::HighMidGain {
            value
        } else {
            old(e).high_mid_gain
        }),
        final(e).high_gain == (if p == Param::HighGain {
            value
        } else {
            old(e).high_gain
        }),
        final(e).low_width == (if p == Param::LowWidth {
            value
        } else {
            old(e).low_width
        }),
        final(e).bass_width == (if p == Param::BassWidth {
            value
        } else {
            old(e).bass_width
        }),
        final(e).mid_width == (if p == Param::MidWidth {
            value
        } else {
            old(e).mid_width
        }),
        final(e).high_mid_width == (if p == Param::HighMidWidth {
            value
        } else {
            old(e).high_mid_width
        }),
        final(e).high_width == (if p == Param::HighWidth {
            value
        } else {
            old(e).high_width
        }),
        final(e).low_pan == (if p == Param::LowPan {
            value
        } else {
            old(e).low_pan
        }),
        final(e).bass_pan == (if p == Param::BassPan {
            value
        } else {
            old(e).bass_pan
        }),
        final(e).mid_pan == (if p == Param::MidPan {
            value
        } else {
            old(e).mid_pan
        }),
        final(e).high_mid_pan == (if p == Param::HighMidPan {
            value
        } else {
            old(e).high_mid_pan
        }),
        final(e).high_pan == (if p == Param::HighPan {
            value
        } else {
            old(e).high_pan
        }),
        final(e).mono_floor == (if p == Param::MonoFloor {
            value
        } else {
            old(e).mono_floor
        }),
        final(e).output_gain == (if p == Param::OutputGain {
            value
        } else {
            old(e).output_gain
        }),
        final(e).pre_master_target_db == (if p == Param::PreMasterTargetDb {
            value
        } else {
            old(e).pre_master_target_db
        }),
        final(e).solo_low == (if p == Param::SoloLow {
            !zero
        } else {
            old(e).solo_low
        }),
        final(e).solo_bass == (if p == Param::SoloBass {
            !zero
        } else {
            old(e).solo_bass
        }),
        final(e).solo_mid == (if p == Param::SoloMid {
            !zero
        } else {
            old(e).solo_mid
        }),
        final(e).solo_high_mid == (if p == Param::SoloHighMid {
            !zero
        } else {
            old(e).solo_high_mid
        }),
        final(e).solo_high == (if p == Param::SoloHigh {
            !zero
        } else {
            old(e).solo_high
        }),
        final(e).mono_active == (if p == Param::MonoActive {
            !zero
        } else {
            old(e).mono_active
        }),
        final(e).delta_active == (if p == Param::DeltaActive {
            !zero
        } else {
            old(e).delta_active
        }),
        final(e).listen_active == (if p == Param::ListenActive {
            !zero
        } else {
            old(e).listen_active
        }),
        final(e).auto_gain_active == (if p == Param::AutoGainActive {
            !zero
        } else {
            old(e).auto_gain_active
        }),
        final(e).bypass_active == (if p == Param::BypassActive {
            !zero
        } else {
            old(e).bypass_active
        }),
        final(e).pre_master_active == (if p == Param::PreMasterActive {
            !zero
        } else {
            old(e).pre_master_active
        }),
{
}

/// Every parameter is found under its own name, and under no other.
pub proof fn law_every_parameter_has_its_own_name(name: &String, r: Option<Param>)
    requires
        call_ensures(param_by_name, (name,), r),
    ensures
        name@ == "low_gain"@ ==> r == Some(Param::LowGain),
        name@ == "bass_gain"@ ==> r == Some(Param::BassGain),
        name@ == "mid_gain"@ ==> r == Some(Param::MidGain),
        name@ == "high_mid_gain"@ ==> r == Some(Param::HighMidGain),
        name@ == "high_gain"@ ==> r == Some(Param::HighGain),
        name@ == "low_width"@ ==> r == Some(Param::LowWidth),
        name@ == "bass_width"@ ==> r == Some(Param::BassWidth),
        name@ == "mid_width"@ ==> r == Some(Param::MidWidth),
        name@ == "high_mid_width"@ ==> r == Some(Param::HighMidWidth),
        name@ == "high_width"@ ==> r == Some(Param::HighWidth),
        name@ == "low_pan"@ ==> r == Some(Param::LowPan),
        name@ == "bass_pan"@ ==> r == Some(Param::BassPan),
        name@ == "mid_pan"@ ==> r == Some(Param::MidPan),
        name@ == "high_mid_pan"@ ==> r == Some(Param::HighMidPan),
        name@ == "high_pan"@ ==> r == Some(Param::HighPan),
        name@ == "mono_floor"@ ==> r == Some(Param::MonoFloor),
        name@ == "output_gain"@ ==> r == Some(Param::OutputGain),
        name@ == "pre_master_target_db"@ ==> r == Some(Param::PreMasterTargetDb),
        name@ == "solo_low"@ ==> r == Some(Param::SoloLow),
        name@ == "solo_bass"@ ==> r == Some(Param::SoloBass),
        name@ == "solo_mid"@ ==> r == Some(Param::SoloMid),
        name@ == "solo_high_mid"@ ==> r == Some(Param::SoloHighMid),
        name@ == "solo_high"@ ==> r == Some(Param::SoloHigh),
        name@ == "mono_active"@ ==> r == Some(Param::MonoActive),
        name@ == "delta_active"@ ==> r == Some(Param::DeltaActive),
        name@ == "listen_active"@ ==> r == Some(Param::ListenActive),
        name@ == "auto_gain_active"@ ==> r == Some(Param::AutoGainActive),
        name@ == "bypass_active"@ ==> r == Some(Param::BypassActive),
        name@ == "pre_master_active"@ ==> r == Some(Param::PreMasterActive),
        r is Some ==> crate::equilibrium_params::param_name(r->0) == name@,
{
    law_names_read_back(Param::LowGain);
    law_names_read_back(Param::BassGain);
    law_names_read_back(Param::MidGain);
    law_names_read_back(Param::HighMidGain);
    law_names_read_back(Param::HighGain);
    law_names_read_back(Param::LowWidth);
    law_names_read_back(Param::BassWidth);
    law_names_read_back(Param::MidWidth);
    law_names_read_back(Param::HighMidWidth);
    law_names_read_back(Param::HighWidth);
    law_names_read_back(Param::LowPan);
    law_names_read_back(Param::BassPan);
    law_names_read_back(Param::MidPan);
    law_names_read_back(Param::HighMidPan);
    law_names_read_back(Param::HighPan);
    law_names_read_back(Param::MonoFloor);
    law_names_read_back(Param::OutputGain);
    law_names_read_back(Param::PreMasterTargetDb);
    law_names_read_back(Param::SoloLow);
    law_names_read_back(Param::SoloBass);
    law_names_read_back(Param::SoloMid);
    law_names_read_back(Param::SoloHighMid);
    law_names_read_back(Param::SoloHigh);
    law_names_read_back(Param::MonoActive);
    law_names_read_back(Param::DeltaActive);
    law_names_read_back(Param::ListenActive);
    law_names_read_back(Param::AutoGainActive);
    law_names_read_back(Param::BypassActive);
    law_names_read_back(Param::PreMasterActive);
}

/// Gains go from -12 to 12 dB, widths from 0 to 150 %, pans from -1 to 1, the mono floor to 300 Hz
/// and the target of the pre-master from -6 to -3 dB.
pub proof fn law_parameters_have_their_ranges(p: Param, r: (i32, i32))
    requires
        call_ensures(param_range, (p,), r),
    ensures
        p == Param::LowGain || p == Param::BassGain || p == Param::MidGain || p == Param::HighMidGain
            || p == Param::HighGain || p == Param::OutputGain ==> r == (-12i32, 12i32),
        p == Param::LowWidth || p == Param::BassWidth || p == Param::MidWidth || p
            == Param::HighMidWidth || p == Param::HighWidth ==> r == (0i32, 150i32),
        p == Param::LowPan || p == Param::BassPan || p == Param::MidPan || p == Param::HighMidPan || p
            == Param::HighPan ==> r == (-1i32, 1i32),
        p == Param::MonoFloor ==> r == (0i32, 300i32),
        p == Param::PreMasterTargetDb ==> r == (-6i32, -3i32),
{
}

/// Saved values are set one by one, in their order; what has no parameter is passed over, and a
/// state that cannot be read changes nothing.
pub proof fn law_saved_values_are_set_one_by_one(
    a: &mut EquilibriumParams,
    b: &mut EquilibriumParams,
    c: &mut EquilibriumParams,
    list: Vec<(String, Wide)>,
    more: Vec<(String, Wide)>,
    name: String,
    value: Wide,
    known: Option<Param>,
    u: (),
)
    requires
        more@ == list@.push((name, value)),
        *old(a) == *old(b),
        call_ensures(EquilibriumParams::load_state, (a, &Some(list)), u),
        call_ensures(EquilibriumParams::load_state, (b, &Some(more)), u),
        call_ensures(param_by_name, (&name,), known),
        known is Some ==> call_ensures(EquilibriumParams::set, (c, known->0, value), u) && *old(c)
            == *final(a),
    ensures
        list@.len() == 0 ==> *final(a) == *old(a),
        known is Some ==> *final(b) == *final(c),
        known is None ==> *final(b) == *final(a),
{
    let n = list@.len();
    lemma_loaded(*old(a), list@, more@, n);
    assert(more@[n as int] == (name, value));
}

proof fn lemma_loaded(
    p: EquilibriumParams,
    a: Seq<(String, Wide)>,
    b: Seq<(String, Wide)>,
    n: nat,
)
    requires
        n <= a.len(),
        n <= b.len(),
        forall|i: int| 0 <= i < n ==> a[i] == b[i],
    ensures
        p.loaded(a, n) == p.loaded(b, n),
    decreases n,
{
    if n > 0 {
        lemma_loaded(p, a, b, (n - 1) as nat);
        assert(a[n - 1] == b[n - 1]);
    }
}

/// Where a reset brings a parameter: widths to 100 %, the target of the pre-master to -3 dB and every
/// other number to 0.
pub open spec fn rest_value(p: Param) -> int {
    if p == Param::LowWidth || p == Param::BassWidth || p == Param::MidWidth || p
        == Param::HighMidWidth || p == Param::HighWidth {
        100
    } else if p == Param::PreMasterTargetDb {
        -3
    } else {
        0
    }
}

/// Whether a parameter is one of the switches.
pub open spec fn switchable(p: Param) -> bool {
    p == Param::SoloLow || p == Param::SoloBass || p == Param::SoloMid || p == Param::SoloHighMid || p
        == Param::SoloHigh || p == Param::MonoActive || p == Param::DeltaActive || p
        == Param::ListenActive || p == Param::AutoGainActive || p == Param::BypassActive || p
        == Param::PreMasterActive
}

/// A reset brings every number to where it rests, and turns off every switch.
pub proof fn law_a_reset_reaches_every_parameter(
    values: Vec<(Param, i32)>,
    switches: Vec<Param>,
    p: Param,
)
    requires
        call_ensures(reset_values, (), values),
        call_ensures(switches_to_reset, (), switches),
    ensures
        !switchable(p) ==> exists|i: int|
            0 <= i < values@.len() && (#[trigger] values@[i]).0 == p && values@[i].1 == rest_value(p),
        switchable(p) ==> exists|i: int| 0 <= i < switches@.len() && #[trigger] switches@[i] == p,
        values@.len() == 18,
        switches@.len() == 11,
{
    let t = reset_targets();
    assert(t.len() == 18);
    assert(values@[0].0 == Param::LowGain && values@[0].1 == rest_value(Param::LowGain));
    assert(values@[1].0 == Param::BassGain && values@[1].1 == rest_value(Param::BassGain));
    assert(values@[2].0 == Param::MidGain && values@[2].1 == rest_value(Param::MidGain));
    assert(values@[3].0 == Param::HighMidGain && values@[3].1 == rest_value(Param::HighMidGain));
    assert(values@[4].0 == Param::HighGain && values@[4].1 == rest_value(Param::HighGain));
    assert(values@[5].0 == Param::LowWidth && values@[5].1 == rest_value(Param::LowWidth));
    assert(values@[6].0 == Param::BassWidth && values@[6].1 == rest_value(Param::BassWidth));
    assert(values@[7].0 == Param::MidWidth && values@[7].1 == rest_value(Param::MidWidth));
    assert(values@[8].0 == Param::HighMidWidth && values@[8].1 == rest_value(Param::HighMidWidth));
    assert(values@[9].0 == Param::HighWidth && values@[9].1 == rest_value(Param::HighWidth));
    assert(values@[10].0 == Param::LowPan && values@[10].1 == rest_value(Param::LowPan));
    assert(values@[11].0 == Param::BassPan && values@[11].1 == rest_value(Param::BassPan));
    assert(values@[12].0 == Param::MidPan && values@[12].1 == rest_value(Param::MidPan));
    assert(values@[13].0 == Param::HighMidPan && values@[13].1 == rest_value(Param::HighMidPan));
    assert(values@[14].0 == Param::HighPan && values@[14].1 == rest_value(Param::HighPan));
    assert(values@[15].0 == Param::OutputGain && values@[15].1 == rest_value(Param::OutputGain));
    assert(values@[16].0 == Param::MonoFloor && values@[16].1 == rest_value(Param::MonoFloor));
    assert(values@[17].0 == Param::PreMasterTargetDb && values@[17].1 == rest_value(Param::PreMasterTargetDb));
    assert(switches@[0] == Param::MonoActive);
    assert(switches@[1] == Param::DeltaActive);
    assert(switches@[2] == Param::BypassActive);
    assert(switches@[3] == Param::PreMasterActive);
    assert(switches@[4] == Param::ListenActive);
    assert(switches@[5] == Param::AutoGainActive);
    assert(switches@[6] == Param::SoloLow);
    assert(switches@[7] == Param::SoloBass);
    assert(switches@[8] == Param::SoloMid);
    assert(switches@[9] == Param::SoloHighMid);
    assert(switches@[10] == Param::SoloHigh);
}

/// What a reset sets a parameter to.
pub open spec fn at_rest(p: Param) -> ParamValue {
    if switchable(p) {
        ParamValue::Switch(false)
    } else {
        ParamValue::Choice(rest_value(p) as i32)
    }
}

/// Whether three calls from a place on make one change.
pub open spec fn change_at(edits: Seq<Edit<Param>>, i: int, p: Param, v: ParamValue) -> bool {
    &&& 0 <= i && i + 2 < edits.len()
    &&& edits[i] == Edit::<Param>::Begin(p)
    &&& edits[i + 1] == Edit::<Param>::Change(p, v)
    &&& edits[i + 2] == Edit::<Param>::End(p)
}

/// The calls of a reset: every number is set to where it rests, and every switch to off, each in
/// a change of its own.
pub proof fn law_a_reset_makes_a_change_for_every_parameter(edits: Vec<Edit<Param>>, p: Param)
    requires
        call_ensures(reset_edits, (), edits),
    ensures
        edits@.len() == 87,
        exists|i: int| #[trigger]
            change_at(edits@, i, p, at_rest(p)),
{
    let all = reset_changes();
    assert(all.len() == 29);
    lemma_automated_all(all, 0);
    let v = at_rest(p);
    let k = choose|k: int| 0 <= k < all.len() && all[k] == (p, v);
    assert(all[0] == (Param::LowGain, ParamValue::Choice(rest_value(Param::LowGain) as i32)));
    assert(all[1] == (Param::BassGain, ParamValue::Choice(rest_value(Param::BassGain) as i32)));
    assert(all[2] == (Param::MidGain, ParamValue::Choice(rest_value(Param::MidGain) as i32)));
    assert(all[3] == (Param::HighMidGain, ParamValue::Choice(rest_value(Param::HighMidGain) as i32)));
    assert(all[4] == (Param::HighGain, ParamValue::Choice(rest_value(Param::HighGain) as i32)));
    assert(all[5] == (Param::LowWidth, ParamValue::Choice(rest_value(Param::LowWidth) as i32)));
    assert(all[6] == (Param::BassWidth, ParamValue::Choice(rest_value(Param::BassWidth) as i32)));
    assert(all[7] == (Param::MidWidth, ParamValue::Choice(rest_value(Param::MidWidth) as i32)));
    assert(all[8] == (Param::HighMidWidth, ParamValue::Choice(rest_value(Param::HighMidWidth) as i32)));
    assert(all[9] == (Param::HighWidth, ParamValue::Choice(rest_value(Param::HighWidth) as i32)));
    assert(all[10] == (Param::LowPan, ParamValue::Choice(rest_value(Param::LowPan) as i32)));
    assert(all[11] == (Param::BassPan, ParamValue::Choice(rest_value(Param::BassPan) as i32)));
    assert(all[12] == (Param::MidPan, ParamValue::Choice(rest_value(Param::MidPan) as i32)));
    assert(all[13] == (Param::HighMidPan, ParamValue::Choice(rest_value(Param::HighMidPan) as i32)));
    assert(all[14] == (Param::HighPan, ParamValue::Choice(rest_value(Param::HighPan) as i32)));
    assert(all[15] == (Param::OutputGain, ParamValue::Choice(rest_value(Param::OutputGain) as i32)));
    assert(all[16] == (Param::MonoFloor, ParamValue::Choice(rest_value(Param::MonoFloor) as i32)));
    assert(all[17] == (Param::PreMasterTargetDb, ParamValue::Choice(rest_value(Param::PreMasterTargetDb) as i32)));
    assert(all[18] == (Param::MonoActive, ParamValue::Switch(false)));
    assert(all[19] == (Param::DeltaActive, ParamValue::Switch(false)));
    assert(all[20] == (Param::BypassActive, ParamValue::Switch(false)));
    assert(all[21] == (Param::PreMasterActive, ParamValue::Switch(false)));
    assert(all[22] == (Param::ListenActive, ParamValue::Switch(false)));
    assert(all[23] == (Param::AutoGainActive, ParamValue::Switch(false)));
    assert(all[24] == (Param::SoloLow, ParamValue::Switch(false)));
    assert(all[25] == (Param::SoloBass, ParamValue::Switch(false)));
    assert(all[26] == (Param::SoloMid, ParamValue::Switch(false)));
    assert(all[27] == (Param::SoloHighMid, ParamValue::Switch(false)));
    assert(all[28] == (Param::SoloHigh, ParamValue::Switch(false)));
    assert(0 <= k < all.len() && all[k] == (p, v));
    lemma_automated_all(all, k);
    assert(change_at(edits@, 3 * k, p, v));
}

/// The list of profiles starts with pink noise, which is flat and full, and goes on with those
/// found, in their order.
pub proof fn law_pink_noise_stands_first(
    tolerances: [Level; 5],
    found: Vec<PresetEntry>,
    r: Vec<PresetEntry>,
    i: int,
    b: int,
)
    requires
        call_ensures(load_presets, (tolerances, found), r),
        0 <= b < 5,
    ensures
        r@.len() == found@.len() + 1,
        0 <= i < found@.len() ==> r@[i + 1] == found@[i],
        r@[0].name@ == "Pink Noise"@,
        r@[0].path is None,
        r@[0].preset.bands@[b].bits == 0,
        r@[0].preset.tolerances@[b] == tolerances@[b],
        r@[0].preset.pans@[b].bits == 0,
        r@[0].preset.widths@[b].bits == 0x42c8_0000,
        r@[0].preset.mono_floor_hz.bits == 0,
{
    if 0 <= i < found@.len() {
        assert(r@.skip(1)[i] == r@[i + 1]);
    }
}

proof fn lemma_places(entries: Seq<PresetEntry>, saved: bool, n: nat)
    requires
        n <= entries.len() <= usize::MAX,
    ensures
        forall|i: int|
            0 <= i < places(entries, saved, n).len() ==> (#[trigger] places(entries, saved, n)[i]) < n
                && (entries[places(entries, saved, n)[i] as int].path is Some) == saved,
        forall|k: int|
            0 <= k < n && ((#[trigger] entries[k]).path is Some) == saved ==> places(
                entries,
                saved,
                n,
            ).contains(k as usize),
        forall|i: int, j: int|
            0 <= i < j < places(entries, saved, n).len() ==> (#[trigger] places(entries, saved, n)[i])
                < (#[trigger] places(entries, saved, n)[j]),
    decreases n,
{
    if n > 0 {
        lemma_places(entries, saved, (n - 1) as nat);
        let before = places(entries, saved, (n - 1) as nat);
        let now = places(entries, saved, n);
        assert forall|i: int| 0 <= i < now.len() implies (#[trigger] now[i]) < n && (
        entries[now[i] as int].path is Some) == saved by {
            if i < before.len() {
                assert(now[i] == before[i]);
            }
        }
        assert forall|k: int|
            0 <= k < n && ((#[trigger] entries[k]).path is Some) == saved implies now.contains(
            k as usize,
        ) by {
            if k < n - 1 {
                let i = choose|i: int| 0 <= i < before.len() && before[i] == k as usize;
                assert(now[i] == k as usize);
            } else {
                assert(now.last() == k as usize);
            }
        }
        assert forall|i: int, j: int| 0 <= i < j < now.len() implies (#[trigger] now[i]) < (
        #[trigger] now[j]) by {
            assert(now[i] == before[i]);
            if j < before.len() {
                assert(now[j] == before[j]);
            }
        }
    }
}

/// The places listed are those of the profiles with a file, or of those without, in their order.
pub proof fn law_profiles_are_listed_by_their_file(
    entries: &Vec<PresetEntry>,
    saved: bool,
    r: Vec<usize>,
    i: int,
    k: int,
)
    requires
        entries@.len() <= usize::MAX,
        call_ensures(list_places, (entries, saved), r),
    ensures
        0 <= i < r@.len() ==> r@[i] < entries@.len() && (entries@[r@[i] as int].path is Some) == saved,
        0 < i < r@.len() ==> r@[i - 1] < r@[i],
        0 <= k < entries@.len() && (entries@[k].path is Some) == saved ==> r@.contains(k as usize),
{
    lemma_places(entries@, saved, entries@.len());
}

/// A profile sets the widths and the pans of the five bands and the mono floor.
pub proof fn law_a_profile_sets_its_stereo_image(p: &EqPreset, r: Vec<(Param, Level)>)
    requires
        call_ensures(preset_settings, (p,), r),
    ensures
        r@.len() == 11,
        r@[0] == (Param::LowWidth, p.widths@[0]),
        r@[1] == (Param::BassWidth, p.widths@[1]),
        r@[2] == (Param::MidWidth, p.widths@[2]),
        r@[3] == (Param::HighMidWidth, p.widths@[3]),
        r@[4] == (Param::HighWidth, p.widths@[4]),
        r@[5] == (Param::LowPan, p.pans@[0]),
        r@[6] == (Param::BassPan, p.pans@[1]),
        r@[7] == (Param::MidPan, p.pans@[2]),
        r@[8] == (Param::HighMidPan, p.pans@[3]),
        r@[9] == (Param::HighPan, p.pans@[4]),
        r@[10] == (Param::MonoFloor, p.mono_floor_hz),
{
}

/// A chosen profile is the target with its levels and tolerances; a place without one changes
/// nothing.
pub proof fn law_a_chosen_profile_is_the_target(
    t: &mut Target,
    entries: &Vec<PresetEntry>,
    index: usize,
    r: Option<Vec<(Param, Level)>>,
)
    requires
        call_ensures(Target::select, (t, entries, index), r),
    ensures
        r is Some <==> index < entries@.len(),
        r is Some ==> final(t).levels == entries@[index as int].preset.bands && final(t).tolerances
            == entries@[index as int].preset.tolerances && final(t).selected == Some(index),
        r is None ==> *final(t) == *old(t),
        r is Some ==> r->0@.len() == 11 && r->0@[10] == (
            Param::MonoFloor,
            entries@[index as int].preset.mono_floor_hz,
        ) && r->0@[0] == (Param::LowWidth, entries@[index as int].preset.widths@[0]) && r->0@[5] == (
            Param::LowPan,
            entries@[index as int].preset.pans@[0],
        ),
{
}

/// A reset of the target goes back to the first profile, or to a flat one.
pub proof fn law_the_target_goes_back_to_the_first(
    t: &mut Target,
    entries: &Vec<PresetEntry>,
    tolerances: [Level; 5],
    u: (),
    b: int,
)
    requires
        call_ensures(Target::reset, (t, entries, tolerances), u),
        0 <= b < 5,
    ensures
        entries@.len() > 0 ==> final(t).levels == entries@[0].preset.bands && final(t).tolerances
            == entries@[0].preset.tolerances && final(t).selected == Some(0usize),
        entries@.len() == 0 ==> final(t).levels@[b].bits == 0 && final(t).tolerances == tolerances
            && final(t).selected is None,
{
}

/// What was heard becomes the target where listening is on and more than a hundred samples were
/// heard.
pub proof fn law_what_was_heard_becomes_the_target(
    t: &mut Target,
    listen: Level,
    samples: Level,
    levels: [Level; 5],
    tolerances: [Level; 5],
    taken: bool,
)
    requires
        call_ensures(Target::apply_analysis, (t, listen, samples, levels, tolerances), taken),
        !listen.nan(),
    ensures
        taken <==> listen.above(Level { bits: 0x3f00_0000 }) && samples.above(
            Level { bits: 0x42c8_0000 },
        ),
        taken ==> final(t).levels == levels && final(t).tolerances == tolerances,
        !taken ==> final(t).levels == old(t).levels && final(t).tolerances == old(t).tolerances,
        final(t).selected == old(t).selected,
{
}

/// A profile is saved under the name given, without the white space around it, or else under the
/// next number.
pub proof fn law_a_profile_has_a_name(input: &String, count: usize, t: String, r: String)
    requires
        call_ensures(trim_string, (input,), t),
        call_ensures(preset_name, (input, count), r),
    ensures
        t@.len() > 0 ==> r@ == t@,
        t@.len() == 0 ==> r@ == "User Preset "@ + decimal(count as nat + 1),
{
}

proof fn lemma_safe(name: Seq<char>, i: int)
    requires
        0 <= i < safe_chars(name).len(),
    ensures
        name.contains(safe_chars(name)[i]),
    decreases name.len(),
{
    let before = safe_chars(name.drop_last());
    if i < before.len() {
        lemma_safe(name.drop_last(), i);
        let k = choose|k: int|
            0 <= k < name.drop_last().len() && name.drop_last()[k] == before[i];
        assert(name[k] == before[i]);
        assert(safe_chars(name)[i] == before[i]);
    } else {
        assert(name[name.len() - 1] == name.last());
    }
}

proof fn lemma_plain_stays(name: Seq<char>)
    requires
        forall|i: int|
            0 <= i < name.len() ==> crate::equilibrium_editor::alphanumeric(#[trigger] name[i])
                || name[i] == ' ' || name[i] == '-' || name[i] == '_',
    ensures
        safe_chars(name) == name,
    decreases name.len(),
{
    if name.len() > 0 {
        let d = name.drop_last();
        assert forall|i: int| 0 <= i < d.len() implies crate::equilibrium_editor::alphanumeric(
            #[trigger] d[i],
        ) || d[i] == ' ' || d[i] == '-' || d[i] == '_' by {
            assert(d[i] == name[i]);
        }
        lemma_plain_stays(d);
        assert(name[name.len() - 1] == name.last());
        assert(d.push(name.last()) =~= name);
    } else {
        assert(safe_chars(name) =~= name);
    }
}

/// A file name holds only characters of the name, none that separates folders; a name of letters,
/// digits, spaces, hyphens and underscores stays whole.
pub proof fn law_file_names_are_safe(name: &String, r: String, i: int)
    requires
        call_ensures(preset_file_name, (name,), r),
        0 <= i < r@.len() - 3,
    ensures
        name@.contains(r@[i]),
        r@[i] != '/' && r@[i] != '\\' && r@[i] != '.',
        r@.skip(r@.len() - 3) == ".md"@,
        (forall|k: int|
            0 <= k < name@.len() ==> crate::equilibrium_editor::alphanumeric(#[trigger] name@[k])
                || name@[k] == ' ' || name@[k] == '-' || name@[k] == '_') ==> r@ == name@ + ".md"@,
{
    reveal_strlit(".md");
    let s = safe_chars(name@);
    lemma_safe(name@, i);
    assert(r@[i] == s[i]);
    assert(r@.skip(r@.len() - 3) =~= ".md"@);
    if forall|k: int|
        0 <= k < name@.len() ==> crate::equilibrium_editor::alphanumeric(#[trigger] name@[k])
            || name@[k] == ' ' || name@[k] == '-' || name@[k] == '_' {
        lemma_plain_stays(name@);
    }
}

/// The lamp follows the capture and blinks in steps of eight ticks; a capture that ends is written
/// where there is a folder; an offset of more than 0.05 dB is applied once it is measured.
pub proof fn law_the_lamp_follows_the_capture(
    l: &mut SnapLamp,
    active: bool,
    measuring: bool,
    offset: Level,
    path: &Option<String>,
    r: TickAction,
    lamp: SnapLamp,
    lit: bool,
    label: String,
)
    requires
        call_ensures(SnapLamp::tick, (l, active, measuring, offset, path), r),
        call_ensures(SnapLamp::lit, (&lamp,), lit),
        call_ensures(SnapLamp::label, (&lamp, path), label),
    ensures
        final(l).snap_active == active,
        !active ==> final(l).blink_counter == 0,
        active && old(l).blink_counter < u32::MAX ==> final(l).blink_counter == old(l).blink_counter
            + 1,
        r.write_snapshot <==> old(l).snap_active && !active && *path is Some && (*path)->0@.len() > 0,
        r.apply_offset <==> !measuring && (offset.above(Level { bits: 0x3d4c_cccd }) || (Level {
            bits: 0xbd4c_cccd,
        }).above(offset)),
        lit <==> lamp.snap_active && lamp.blink_counter % 16 < 8,
        lamp.snap_active ==> label@ == "ANALYZE..."@,
        !lamp.snap_active && !(*path is Some && (*path)->0@.len() > 0) ==> label@ == "SET VAULT"@,
        !lamp.snap_active && *path is Some && (*path)->0@.len() > 0 ==> label@ == "SNAP"@,
{
}

/// A capture starts at its first phase where there is a folder.
pub proof fn law_a_capture_needs_a_folder(path: &Option<String>, r: Option<SnapState>)
    requires
        call_ensures(press_snap, (path,), r),
    ensures
        r is Some <==> *path is Some && (*path)->0@.len() > 0,
        r is Some ==> r->0.phase == 1 && r->0.active,
{
}

/// A pan is told as the centre, or as its side with its percentage.
pub proof fn law_a_pan_tells_its_side(pan: Level, percent: &str, r: String)
    requires
        call_ensures(format_pan, (pan, percent), r),
        !pan.nan(),
    ensures
        pan.at_least(Level { bits: 0x3c23_d70a }) ==> r@ == "R "@ + percent@ + "%"@,
        (Level { bits: 0xbc23_d70a }).at_least(pan) ==> r@ == "L "@ + percent@ + "%"@,
        pan.above(Level { bits: 0xbc23_d70a }) && (Level { bits: 0x3c23_d70a }).above(pan) ==> r@
            == "C"@,
{
}

/// A gain is raised by an offset up to 12 dB and lowered down to -12 dB; nothing is left of it.
pub proof fn law_an_offset_stays_in_the_range_of_the_gain(sum: Level, r: (Level, Level))
    requires
        call_ensures(apply_offset, (sum,), r),
        !sum.nan(),
    ensures
        sum.above(Level { bits: 0x4140_0000 }) ==> r.0.bits == 0x4140_0000,
        (Level { bits: 0xc140_0000 }).above(sum) ==> r.0.bits == 0xc140_0000,
        sum.at_least(Level { bits: 0xc140_0000 }) && (Level { bits: 0x4140_0000 }).at_least(sum)
            ==> r.0 == sum,
        r.1.bits == 0,
{
}

/// A tick shows what it reads beside the target, where any of it has changed; it applies an offset
/// to the output gain and writes a snapshot that has just been captured.
pub proof fn law_a_tick_of_equilibrium_shows_what_it_reads<A: Fn(Level, Level) -> Level>(
    p: &mut EqPanel,
    feed: &EqFeed,
    raise: &A,
    r: EqOutcome,
    b: int,
)
    requires
        old(p).wf(),
        call_ensures(EqPanel::tick::<A>, (p, feed, raise), r),
        0 <= b < 5,
    ensures
        r.changed ==> final(p).shown.spectrum.band_levels == feed.bands.band_levels && final(p).shown.spectrum.listen_levels == feed.bands.listen_levels && final(p).shown.spectrum.listen_tolerances == feed.bands.listen_tolerances && final(p).shown.spectrum.listen_level_min == feed.bands.listen_level_min && final(p).shown.spectrum.listen_level_max == feed.bands.listen_level_max && final(p).shown.spectrum.listen_samples == feed.bands.listen_samples && final(p).shown.spectrum.target_levels == old(p).target.levels && final(p).shown.spectrum.target_tolerances == old(p).target.tolerances && final(p).shown.meters
            == feed.meters && final(p).shown.measuring == feed.measuring && final(p).shown.lamp.snap_active == feed.snap_active,
        !r.changed ==> final(p).shown == old(p).shown,
        feed.measuring != old(p).shown.measuring ==> r.changed,
        feed.snap_active != old(p).shown.lamp.snap_active ==> r.changed,
        !feed.bands.band_levels@[b].same(old(p).shown.spectrum.band_levels@[b]) ==> r.changed,
        !feed.bands.listen_levels@[b].same(old(p).shown.spectrum.listen_levels@[b]) ==> r.changed,
        !feed.bands.listen_tolerances@[b].same(old(p).shown.spectrum.listen_tolerances@[b]) ==> r.changed,
        !feed.bands.listen_level_min@[b].same(old(p).shown.spectrum.listen_level_min@[b]) ==> r.changed,
        !feed.bands.listen_level_max@[b].same(old(p).shown.spectrum.listen_level_max@[b]) ==> r.changed,
        !old(p).target.levels@[b].same(old(p).shown.spectrum.target_levels@[b]) ==> r.changed,
        !old(p).target.tolerances@[b].same(old(p).shown.spectrum.target_tolerances@[b]) ==> r.changed,
        !feed.bands.listen_samples.same(old(p).shown.spectrum.listen_samples) ==> r.changed,
        !feed.meters.correlation.same(old(p).shown.meters.correlation) ==> r.changed,
        !feed.meters.peak_l.same(old(p).shown.meters.peak_l) ==> r.changed,
        !feed.meters.peak_r.same(old(p).shown.meters.peak_r) ==> r.changed,
        !feed.meters.hold_l.same(old(p).shown.meters.hold_l) ==> r.changed,
        !feed.meters.hold_r.same(old(p).shown.meters.hold_r) ==> r.changed,
        !feed.meters.hold.same(old(p).shown.meters.hold) ==> r.changed,
        !feed.meters.balance.same(old(p).shown.meters.balance) ==> r.changed,
        r.action.write_snapshot <==> old(p).shown.lamp.snap_active && !feed.snap_active && old(p).vault_path is Some && old(p).vault_path->0@.len() > 0,
        r.action.apply_offset <==> !feed.measuring && (feed.offset.above(Level { bits: 0x3d4c_cccd })
            || (Level { bits: 0xbd4c_cccd }).above(feed.offset)),
        !r.action.apply_offset ==> r.gain is None && r.offset == feed.offset,
        r.action.apply_offset ==> r.offset.bits == 0 && r.gain is Some && exists|sum: Level| #[trigger]
            call_ensures(*raise, (feed.output_gain, feed.offset), sum) && (sum.above(
                Level { bits: 0x4140_0000 },
            ) ==> r.gain->0.bits == 0x4140_0000) && ((Level { bits: 0xc140_0000 }).above(sum)
                ==> r.gain->0.bits == 0xc140_0000) && (!sum.above(Level { bits: 0x4140_0000 }) && !(
            Level { bits: 0xc140_0000 }).above(sum) ==> r.gain->0 == sum),
        final(p).target == old(p).target,
        final(p).presets == old(p).presets,
        final(p).vault_path == old(p).vault_path,
{
    if r.action.apply_offset {
        let sum = choose|sum: Level|
            #![trigger held_gain(sum)]
            call_ensures(*raise, (feed.output_gain, feed.offset), sum) && r.gain == Some(
                held_gain(sum),
            );
        assert(call_ensures(*raise, (feed.output_gain, feed.offset), sum));
    }
}

/// The setup opens and closes by its button, closes without saving, and opens where a snapshot
/// needs a folder.
pub proof fn law_the_setup_of_equilibrium(
    a: &mut EqPanel,
    b: &mut EqPanel,
    c: &mut EqPanel,
    u: (),
    r: Option<SnapState>,
)
    requires
        call_ensures(EqPanel::press_setup, (a,), u),
        call_ensures(EqPanel::cancel_setup, (b,), u),
        call_ensures(EqPanel::press_snap, (c,), r),
    ensures
        final(a).show_setup == !old(a).show_setup,
        !final(b).show_setup,
        r is Some <==> old(c).vault_path is Some && old(c).vault_path->0@.len() > 0,
        r is Some ==> final(c).show_setup == old(c).show_setup && r->0.phase == 1 && r->0.active,
        r is None ==> final(c).show_setup,
        final(a).target == old(a).target && final(b).target == old(b).target && final(c).target == old(c).target,
{
}

/// A folder that was saved is taken over with its profiles; the target stays.
pub proof fn law_a_saved_folder_brings_its_profiles(
    p: &mut EqPanel,
    path: String,
    found: Vec<PresetEntry>,
    u: (),
    i: int,
)
    requires
        call_ensures(EqPanel::folder_saved, (p, path, found), u),
        0 <= i < found@.len(),
    ensures
        final(p).vault_path == Some(path),
        !final(p).show_setup,
        final(p).presets@.len() == found@.len() + 1,
        final(p).presets@[i + 1] == found@[i],
        final(p).presets@[0].name@ == "Pink Noise"@,
        final(p).target == old(p).target,
        final(p).shown == old(p).shown,
        final(p).generation != old(p).generation,
{
    assert(final(p).presets@.skip(1).len() == found@.len());
    assert(final(p).presets@.skip(1)[i] == final(p).presets@[i + 1]);
}

/// A chosen profile is the target of the panel; what was heard is it where enough was; a reset goes
/// back to the first one.
pub proof fn law_the_target_of_the_panel(
    a: &mut EqPanel,
    index: usize,
    settings: Option<Vec<(Param, Level)>>,
    b: &mut EqPanel,
    listen: Level,
    taken: bool,
    c: &mut EqPanel,
    r: ResetAll,
)
    requires
        old(a).wf() && old(b).wf() && old(c).wf(),
        call_ensures(EqPanel::pick, (a, index), settings),
        call_ensures(EqPanel::apply_analysis, (b, listen), taken),
        call_ensures(EqPanel::reset_all, (c,), r),
        !listen.nan(),
    ensures
        settings is Some <==> index < old(a).presets@.len(),
        settings is Some ==> final(a).target.levels == old(a).presets@[index as int].preset.bands
            && final(a).target.tolerances == old(a).presets@[index as int].preset.tolerances && final(a).target.selected == Some(index),
        settings is None ==> final(a).target == old(a).target,
        taken <==> listen.above(Level { bits: 0x3f00_0000 }) && old(b).shown.spectrum.listen_samples.above(Level { bits: 0x42c8_0000 }),
        taken ==> final(b).target.levels == old(b).shown.spectrum.listen_levels && final(b).target.tolerances == old(b).shown.spectrum.listen_tolerances,
        !taken ==> final(b).target == old(b).target,
        final(c).target.levels == old(c).presets@[0].preset.bands,
        final(c).target.tolerances == old(c).presets@[0].preset.tolerances,
        final(c).target.selected == Some(0usize),
        r.offset.bits == 0,
        r.reset_analysis,
        r.edits@.len() == 87,
{
    lemma_automated_all(reset_changes(), 0);
    assert(reset_changes().len() == 29);
}

/// The list has a line for each profile, built-in ones apart from saved ones, and marks the one that
/// is chosen.
pub proof fn law_every_profile_has_a_line(p: &EqPanel, r: PresetList, k: int, i: int)
    requires
        p.presets@.len() <= usize::MAX,
        call_ensures(EqPanel::preset_list, (p,), r),
    ensures
        r.asks_folder <==> !(p.vault_path is Some && p.vault_path->0@.len() > 0),
        0 <= i < r.factory@.len() ==> r.factory@[i].index < p.presets@.len()
            && p.presets@[r.factory@[i].index as int].path is None && r.factory@[i].label@ == "> "@
            + p.presets@[r.factory@[i].index as int].name@ && (r.factory@[i].selected
            <==> p.target.selected == Some(r.factory@[i].index)),
        0 <= i < r.saved@.len() ==> r.saved@[i].index < p.presets@.len()
            && p.presets@[r.saved@[i].index as int].path is Some && r.saved@[i].label@ == "> "@
            + p.presets@[r.saved@[i].index as int].name@ && (r.saved@[i].selected
            <==> p.target.selected == Some(r.saved@[i].index)),
        0 <= k < p.presets@.len() && p.presets@[k].path is None ==> exists|j: int|
            0 <= j < r.factory@.len() && (#[trigger] r.factory@[j]).index == k,
        0 <= k < p.presets@.len() && p.presets@[k].path is Some ==> exists|j: int|
            0 <= j < r.saved@.len() && (#[trigger] r.saved@[j]).index == k,
{
    let n = p.presets@.len();
    lemma_places(p.presets@, false, n);
    lemma_places(p.presets@, true, n);
    let f = places(p.presets@, false, n);
    let s = places(p.presets@, true, n);
    if 0 <= k < n {
        if p.presets@[k].path is None {
            let j = choose|j: int| 0 <= j < f.len() && f[j] == k as usize;
            assert(r.factory@[j].index == f[j]);
        } else {
            let j = choose|j: int| 0 <= j < s.len() && s[j] == k as usize;
            assert(r.saved@[j].index == s[j]);
        }
    }
    if 0 <= i < r.factory@.len() {
        assert(r.factory@[i].index == f[i]);
    }
    if 0 <= i < r.saved@.len() {
        assert(r.saved@[i].index == s[i]);
    }
}

/// What is saved is the target that is shown with the stereo image that is set, in the folder that
/// is set; the name is then cleared.
pub proof fn law_a_saved_profile_holds_what_is_shown(
    p: &EqPanel,
    s: &StereoSettings,
    r: ProfileToSave,
    q: &mut EqPanel,
    found: Vec<PresetEntry>,
    u: (),
)
    requires
        p.presets@.len() < usize::MAX,
        call_ensures(EqPanel::profile_to_save, (p, s), r),
        call_ensures(EqPanel::profile_saved, (q, found), u),
    ensures
        r.preset.bands == p.shown.spectrum.target_levels,
        r.preset.tolerances == p.shown.spectrum.target_tolerances,
        r.preset.pans == s.pans,
        r.preset.widths == s.widths,
        r.preset.mono_floor_hz == s.mono_floor_hz,
        p.vault_path is Some && p.vault_path->0@.len() > 0 ==> r.folder is Some && r.folder->0@
            == p.vault_path->0@,
        !(p.vault_path is Some && p.vault_path->0@.len() > 0) ==> r.folder is None,
        final(q).name_input@.len() == 0,
        final(q).presets@.len() == found@.len() + 1,
        final(q).target == old(q).target,
        final(q).vault_path == old(q).vault_path,
{
    assert(final(q).presets@.skip(1).len() == found@.len());
}

/// The loudness button is locked while the pre-master is on, then shows a measurement, and then an
/// offset that waits.
pub proof fn law_the_loudness_button(
    pre_master: Level,
    measuring: bool,
    offset: Level,
    r: LoudButton,
    starts: bool,
)
    requires
        call_ensures(loud_button, (pre_master, measuring, offset), r),
        call_ensures(press_loud, (pre_master,), starts),
    ensures
        r == LoudButton::Locked <==> pre_master.above(Level { bits: 0x3f00_0000 }),
        starts <==> r != LoudButton::Locked,
        starts && measuring ==> r == LoudButton::Measuring,
        starts && !measuring ==> (r == LoudButton::Active <==> offset.above(
            Level { bits: 0x3d4c_cccd },
        ) || (Level { bits: 0xbd4c_cccd }).above(offset)),
        starts && !measuring ==> (r == LoudButton::Active || r == LoudButton::Idle),
{
}

/// A switch reads as on above one half; an analysis starts again while listening is on.
pub proof fn law_switches_read_on_above_one_half(
    value: Level,
    off: &str,
    on: &str,
    r: String,
    fresh: Option<FreshAnalysis>,
    b: int,
)
    requires
        call_ensures(switch_label, (value, off, on), r),
        call_ensures(reset_analysis, (value,), fresh),
        !value.nan(),
        0 <= b < 5,
    ensures
        value.above(Level { bits: 0x3f00_0000 }) ==> r@ == on@ && fresh is Some,
        !value.above(Level { bits: 0x3f00_0000 }) ==> r@ == off@ && fresh is None,
        fresh is Some ==> fresh->0.samples.bits == 0 && fresh->0.levels@[b].bits == 0xc2b4_0000
            && fresh->0.tolerances@[b].bits == 0,
{
}

/// Whether a position is held between the ends of a slider.
pub open spec fn at_position(x: Level, v: ParamValue) -> bool {
    &&& v is Number
    &&& (Level { bits: 0 }).above(x) ==> v->Number_0.bits == 0
    &&& x.above(Level { bits: 0x3f80_0000 }) ==> v->Number_0.bits == 0x3f80_0000
    &&& !(Level { bits: 0 }).above(x) && !x.above(Level { bits: 0x3f80_0000 }) ==> v->Number_0 == x
}

/// A drag of a slider begins, moves and ends one change of its parameter; a click that resets makes
/// a change of its own to the default, before it.
pub proof fn law_a_slider_changes_its_parameter(
    p: Param,
    default: Level,
    r: SliderResponse,
    calls: Vec<Edit<Param>>,
)
    requires
        call_ensures(lx_hslider, (p, default, r), calls),
    ensures
        ({
            let reset: int = if r.double_clicked || r.secondary_clicked {
                3
            } else {
                0
            };
            let begun: int = reset + if r.drag_started {
                1int
            } else {
                0
            };
            let moved: int = begun + if r.dragged is Some {
                1int
            } else {
                0
            };
            &&& calls@.len() == moved + if r.drag_stopped {
                1int
            } else {
                0
            }
            &&& reset == 3 ==> calls@[0] == Edit::<Param>::Begin(p) && calls@[1] is Change
                && calls@[1]->Change_0 == p && at_position(default, calls@[1]->Change_1) && calls@[2]
                == Edit::<Param>::End(p)
            &&& r.drag_started ==> calls@[reset] == Edit::<Param>::Begin(p)
            &&& r.dragged is Some ==> calls@[begun] is Change && calls@[begun]->Change_0 == p
                && at_position(r.dragged->0, calls@[begun]->Change_1)
            &&& r.drag_stopped ==> calls@[moved] == Edit::<Param>::End(p)
        }),
{
}

/// A click turns a switch over in one change; without one nothing is called.
pub proof fn law_a_click_turns_a_switch(
    p: Param,
    value: Level,
    clicked: bool,
    calls: Vec<Edit<Param>>,
)
    requires
        call_ensures(lx_toggle, (p, value, clicked), calls),
    ensures
        !clicked ==> calls@.len() == 0,
        clicked ==> calls@.len() == 3 && calls@[0] == Edit::<Param>::Begin(p) && calls@[1]
            == Edit::<Param>::Change(
            p,
            ParamValue::Switch(!value.above(Level { bits: 0x3f00_0000 })),
        ) && calls@[2] == Edit::<Param>::End(p),
{
}

/// A slider fills from its zero where that lies inside its range; the loudness button tells whether
/// it measures.
pub proof fn law_sliders_fill_from_their_zero(
    min: Level,
    max: Level,
    r: bool,
    measuring: bool,
    label: String,
)
    requires
        call_ensures(fills_from_zero, (min, max), r),
        call_ensures(loud_label, (measuring,), label),
    ensures
        r <==> (Level { bits: 0 }).above(min) && max.above(Level { bits: 0 }),
        measuring ==> label@ == "MEASURING..."@,
        !measuring ==> label@ == "AUTO LOUD"@,
{
}

} // verus!
