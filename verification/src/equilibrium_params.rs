//! The parameters of Equilibrium: their names, their ranges and their values.

use crate::text::{chars_of, is_text};
use crate::wide::Wide;
use vstd::prelude::*;
use vstd::string::*;

verus! {

/// A parameter of Equilibrium.
#[derive(Clone, Copy, Debug, PartialEq, Eq, Structural)]
pub enum Param {
    LowGain,
    BassGain,
    MidGain,
    HighMidGain,
    HighGain,
    LowWidth,
    BassWidth,
    MidWidth,
    HighMidWidth,
    HighWidth,
    LowPan,
    BassPan,
    MidPan,
    HighMidPan,
    HighPan,
    MonoFloor,
    OutputGain,
    SoloLow,
    SoloBass,
    SoloMid,
    SoloHighMid,
    SoloHigh,
    MonoActive,
    DeltaActive,
    ListenActive,
    AutoGainActive,
    BypassActive,
    PreMasterActive,
    PreMasterTargetDb,
}

/// The values of all parameters.
#[derive(Clone, Copy)]
pub struct EquilibriumParams {
    pub low_gain: Wide,
    pub bass_gain: Wide,
    pub mid_gain: Wide,
    pub high_mid_gain: Wide,
    pub high_gain: Wide,
    pub low_width: Wide,
    pub bass_width: Wide,
    pub mid_width: Wide,
    pub high_mid_width: Wide,
    pub high_width: Wide,
    pub low_pan: Wide,
    pub bass_pan: Wide,
    pub mid_pan: Wide,
    pub high_mid_pan: Wide,
    pub high_pan: Wide,
    pub mono_floor: Wide,
    pub output_gain: Wide,
    pub solo_low: bool,
    pub solo_bass: bool,
    pub solo_mid: bool,
    pub solo_high_mid: bool,
    pub solo_high: bool,
    pub mono_active: bool,
    pub delta_active: bool,
    pub listen_active: bool,
    pub auto_gain_active: bool,
    pub bypass_active: bool,
    pub pre_master_active: bool,
    pub pre_master_target_db: Wide,
}

/// The name that a parameter is saved under.
pub open spec fn param_name(p: Param) -> Seq<char> {
    match p {
        Param::LowGain => "low_gain"@,
        Param::BassGain => "bass_gain"@,
        Param::MidGain => "mid_gain"@,
        Param::HighMidGain => "high_mid_gain"@,
        Param::HighGain => "high_gain"@,
        Param::LowWidth => "low_width"@,
        Param::BassWidth => "bass_width"@,
        Param::MidWidth => "mid_width"@,
        Param::HighMidWidth => "high_mid_width"@,
        Param::HighWidth => "high_width"@,
        Param::LowPan => "low_pan"@,
        Param::BassPan => "bass_pan"@,
        Param::MidPan => "mid_pan"@,
        Param::HighMidPan => "high_mid_pan"@,
        Param::HighPan => "high_pan"@,
        Param::MonoFloor => "mono_floor"@,
        Param::OutputGain => "output_gain"@,
        Param::SoloLow => "solo_low"@,
        Param::SoloBass => "solo_bass"@,
        Param::SoloMid => "solo_mid"@,
        Param::SoloHighMid => "solo_high_mid"@,
        Param::SoloHigh => "solo_high"@,
        Param::MonoActive => "mono_active"@,
        Param::DeltaActive => "delta_active"@,
        Param::ListenActive => "listen_active"@,
        Param::AutoGainActive => "auto_gain_active"@,
        Param::BypassActive => "bypass_active"@,
        Param::PreMasterActive => "pre_master_active"@,
        Param::PreMasterTargetDb => "pre_master_target_db"@,
    }
}

/// The parameter that is saved under a name.
pub open spec fn param_named(name: Seq<char>) -> Option<Param> {
    if name == "low_gain"@ {
        Some(Param::LowGain)
    } else if name == "bass_gain"@ {
        Some(Param::BassGain)
    } else if name == "mid_gain"@ {
        Some(Param::MidGain)
    } else if name == "high_mid_gain"@ {
        Some(Param::HighMidGain)
    } else if name == "high_gain"@ {
        Some(Param::HighGain)
    } else if name == "low_width"@ {
        Some(Param::LowWidth)
    } else if name == "bass_width"@ {
        Some(Param::BassWidth)
    } else if name == "mid_width"@ {
        Some(Param::MidWidth)
    } else if name == "high_mid_width"@ {
        Some(Param::HighMidWidth)
    } else if name == "high_width"@ {
        Some(Param::HighWidth)
    } else if name == "low_pan"@ {
        Some(Param::LowPan)
    } else if name == "bass_pan"@ {
        Some(Param::BassPan)
    } else if name == "mid_pan"@ {
        Some(Param::MidPan)
    } else if name == "high_mid_pan"@ {
        Some(Param::HighMidPan)
    } else if name == "high_pan"@ {
        Some(Param::HighPan)
    } else if name == "mono_floor"@ {
        Some(Param::MonoFloor)
    } else if name == "output_gain"@ {
        Some(Param::OutputGain)
    } else if name == "solo_low"@ {
        Some(Param::SoloLow)
    } else if name == "solo_bass"@ {
        Some(Param::SoloBass)
    } else if name == "solo_mid"@ {
        Some(Param::SoloMid)
    } else if name == "solo_high_mid"@ {
        Some(Param::SoloHighMid)
    } else if name == "solo_high"@ {
        Some(Param::SoloHigh)
    } else if name == "mono_active"@ {
        Some(Param::MonoActive)
    } else if name == "delta_active"@ {
        Some(Param::DeltaActive)
    } else if name == "listen_active"@ {
        Some(Param::ListenActive)
    } else if name == "auto_gain_active"@ {
        Some(Param::AutoGainActive)
    } else if name == "bypass_active"@ {
        Some(Param::BypassActive)
    } else if name == "pre_master_active"@ {
        Some(Param::PreMasterActive)
    } else if name == "pre_master_target_db"@ {
        Some(Param::PreMasterTargetDb)
    } else {
        None
    }
}

/// The range of a parameter.
pub open spec fn range_of(p: Param) -> (int, int) {
    match p {
        Param::LowGain | Param::BassGain | Param::MidGain | Param::HighMidGain | Param::HighGain
        | Param::OutputGain => (-12, 12),
        Param::LowWidth | Param::BassWidth | Param::MidWidth | Param::HighMidWidth
        | Param::HighWidth => (0, 150),
        Param::LowPan | Param::BassPan | Param::MidPan | Param::HighMidPan | Param::HighPan => (
            -1,
            1,
        ),
        Param::MonoFloor => (0, 300),
        Param::PreMasterTargetDb => (-6, -3),
        _ => (0, 1),
    }
}

/// Whether a parameter is a switch.
pub open spec fn is_switch(p: Param) -> bool {
    match p {
        Param::SoloLow
        | Param::SoloBass
        | Param::SoloMid
        | Param::SoloHighMid
        | Param::SoloHigh
        | Param::MonoActive
        | Param::DeltaActive
        | Param::ListenActive
        | Param::AutoGainActive
        | Param::BypassActive
        | Param::PreMasterActive => true,
        _ => false,
    }
}

/// The parameter that is saved under the name.
pub fn param_by_name(name: &String) -> (r: Option<Param>)
    ensures
        r == param_named(name@),
{
    let v: Vec<char> = chars_of(name.as_str());
    if is_text(&v, "low_gain") {
        Some(Param::LowGain)
    } else if is_text(&v, "bass_gain") {
        Some(Param::BassGain)
    } else if is_text(&v, "mid_gain") {
        Some(Param::MidGain)
    } else if is_text(&v, "high_mid_gain") {
        Some(Param::HighMidGain)
    } else if is_text(&v, "high_gain") {
        Some(Param::HighGain)
    } else if is_text(&v, "low_width") {
        Some(Param::LowWidth)
    } else if is_text(&v, "bass_width") {
        Some(Param::BassWidth)
    } else if is_text(&v, "mid_width") {
        Some(Param::MidWidth)
    } else if is_text(&v, "high_mid_width") {
        Some(Param::HighMidWidth)
    } else if is_text(&v, "high_width") {
        Some(Param::HighWidth)
    } else if is_text(&v, "low_pan") {
        Some(Param::LowPan)
    } else if is_text(&v, "bass_pan") {
        Some(Param::BassPan)
    } else if is_text(&v, "mid_pan") {
        Some(Param::MidPan)
    } else if is_text(&v, "high_mid_pan") {
        Some(Param::HighMidPan)
    } else if is_text(&v, "high_pan") {
        Some(Param::HighPan)
    } else if is_text(&v, "mono_floor") {
        Some(Param::MonoFloor)
    } else if is_text(&v, "output_gain") {
        Some(Param::OutputGain)
    } else if is_text(&v, "solo_low") {
        Some(Param::SoloLow)
    } else if is_text(&v, "solo_bass") {
        Some(Param::SoloBass)
    } else if is_text(&v, "solo_mid") {
        Some(Param::SoloMid)
    } else if is_text(&v, "solo_high_mid") {
        Some(Param::SoloHighMid)
    } else if is_text(&v, "solo_high") {
        Some(Param::SoloHigh)
    } else if is_text(&v, "mono_active") {
        Some(Param::MonoActive)
    } else if is_text(&v, "delta_active") {
        Some(Param::DeltaActive)
    } else if is_text(&v, "listen_active") {
        Some(Param::ListenActive)
    } else if is_text(&v, "auto_gain_active") {
        Some(Param::AutoGainActive)
    } else if is_text(&v, "bypass_active") {
        Some(Param::BypassActive)
    } else if is_text(&v, "pre_master_active") {
        Some(Param::PreMasterActive)
    } else if is_text(&v, "pre_master_target_db") {
        Some(Param::PreMasterTargetDb)
    } else {
        None
    }
}

/// The range of the parameter.
pub fn param_range(p: Param) -> (r: (i32, i32))
    ensures
        r.0 == range_of(p).0,
        r.1 == range_of(p).1,
        r.0 < r.1,
{
    match p {
        Param::LowGain | Param::BassGain | Param::MidGain | Param::HighMidGain | Param::HighGain
        | Param::OutputGain => (-12, 12),
        Param::LowWidth | Param::BassWidth | Param::MidWidth | Param::HighMidWidth
        | Param::HighWidth => (0, 150),
        Param::LowPan | Param::BassPan | Param::MidPan | Param::HighMidPan | Param::HighPan => (
            -1,
            1,
        ),
        Param::MonoFloor => (0, 300),
        Param::PreMasterTargetDb => (-6, -3),
        _ => (0, 1),
    }
}

impl EquilibriumParams {
    /// The values once a parameter is set: a switch is on unless the value is zero.
    pub open spec fn with(self, p: Param, value: Wide) -> EquilibriumParams {
        match p {
            Param::LowGain => EquilibriumParams { low_gain: value, ..self },
            Param::BassGain => EquilibriumParams { bass_gain: value, ..self },
            Param::MidGain => EquilibriumParams { mid_gain: value, ..self },
            Param::HighMidGain => EquilibriumParams { high_mid_gain: value, ..self },
            Param::HighGain => EquilibriumParams { high_gain: value, ..self },
            Param::LowWidth => EquilibriumParams { low_width: value, ..self },
            Param::BassWidth => EquilibriumParams { bass_width: value, ..self },
            Param::MidWidth => EquilibriumParams { mid_width: value, ..self },
            Param::HighMidWidth => EquilibriumParams { high_mid_width: value, ..self },
            Param::HighWidth => EquilibriumParams { high_width: value, ..self },
            Param::LowPan => EquilibriumParams { low_pan: value, ..self },
            Param::BassPan => EquilibriumParams { bass_pan: value, ..self },
            Param::MidPan => EquilibriumParams { mid_pan: value, ..self },
            Param::HighMidPan => EquilibriumParams { high_mid_pan: value, ..self },
            Param::HighPan => EquilibriumParams { high_pan: value, ..self },
            Param::MonoFloor => EquilibriumParams { mono_floor: value, ..self },
            Param::OutputGain => EquilibriumParams { output_gain: value, ..self },
            Param::SoloLow => EquilibriumParams { solo_low: !value.zero(), ..self },
            Param::SoloBass => EquilibriumParams { solo_bass: !value.zero(), ..self },
            Param::SoloMid => EquilibriumParams { solo_mid: !value.zero(), ..self },
            Param::SoloHighMid => EquilibriumParams { solo_high_mid: !value.zero(), ..self },
            Param::SoloHigh => EquilibriumParams { solo_high: !value.zero(), ..self },
            Param::MonoActive => EquilibriumParams { mono_active: !value.zero(), ..self },
            Param::DeltaActive => EquilibriumParams { delta_active: !value.zero(), ..self },
            Param::ListenActive => EquilibriumParams { listen_active: !value.zero(), ..self },
            Param::AutoGainActive => EquilibriumParams { auto_gain_active: !value.zero(), ..self },
            Param::BypassActive => EquilibriumParams { bypass_active: !value.zero(), ..self },
            Param::PreMasterActive => EquilibriumParams { pre_master_active: !value.zero(), ..self },
            Param::PreMasterTargetDb => EquilibriumParams { pre_master_target_db: value, ..self },
        }
    }

    /// Sets a parameter: a switch is on unless the value is zero.
    pub fn set(&mut self, p: Param, value: Wide)
        ensures
            *final(self) == old(self).with(p, value),
    {
        *self = match p {
            Param::LowGain => EquilibriumParams { low_gain: value, ..*self },
            Param::BassGain => EquilibriumParams { bass_gain: value, ..*self },
            Param::MidGain => EquilibriumParams { mid_gain: value, ..*self },
            Param::HighMidGain => EquilibriumParams { high_mid_gain: value, ..*self },
            Param::HighGain => EquilibriumParams { high_gain: value, ..*self },
            Param::LowWidth => EquilibriumParams { low_width: value, ..*self },
            Param::BassWidth => EquilibriumParams { bass_width: value, ..*self },
            Param::MidWidth => EquilibriumParams { mid_width: value, ..*self },
            Param::HighMidWidth => EquilibriumParams { high_mid_width: value, ..*self },
            Param::HighWidth => EquilibriumParams { high_width: value, ..*self },
            Param::LowPan => EquilibriumParams { low_pan: value, ..*self },
            Param::BassPan => EquilibriumParams { bass_pan: value, ..*self },
            Param::MidPan => EquilibriumParams { mid_pan: value, ..*self },
            Param::HighMidPan => EquilibriumParams { high_mid_pan: value, ..*self },
            Param::HighPan => EquilibriumParams { high_pan: value, ..*self },
            Param::MonoFloor => EquilibriumParams { mono_floor: value, ..*self },
            Param::OutputGain => EquilibriumParams { output_gain: value, ..*self },
            Param::SoloLow => EquilibriumParams { solo_low: !value.is_zero(), ..*self },
            Param::SoloBass => EquilibriumParams { solo_bass: !value.is_zero(), ..*self },
            Param::SoloMid => EquilibriumParams { solo_mid: !value.is_zero(), ..*self },
            Param::SoloHighMid => EquilibriumParams { solo_high_mid: !value.is_zero(), ..*self },
            Param::SoloHigh => EquilibriumParams { solo_high: !value.is_zero(), ..*self },
            Param::MonoActive => EquilibriumParams { mono_active: !value.is_zero(), ..*self },
            Param::DeltaActive => EquilibriumParams { delta_active: !value.is_zero(), ..*self },
            Param::ListenActive => EquilibriumParams { listen_active: !value.is_zero(), ..*self },
            Param::AutoGainActive => EquilibriumParams { auto_gain_active: !value.is_zero(), ..*self },
            Param::BypassActive => EquilibriumParams { bypass_active: !value.is_zero(), ..*self },
            Param::PreMasterActive => EquilibriumParams { pre_master_active: !value.is_zero(), ..*self },
            Param::PreMasterTargetDb => EquilibriumParams { pre_master_target_db: value, ..*self },
        };
    }

    /// The values once the first `n` of a list of saved values are taken; unknown names are
    /// passed over.
    pub open spec fn loaded(self, entries: Seq<(String, Wide)>, n: nat) -> EquilibriumParams
        decreases n,
    {
        if n == 0 {
            self
        } else {
            let before = self.loaded(entries, (n - 1) as nat);
            match param_named(entries[n - 1].0@) {
                Some(p) => before.with(p, entries[n - 1].1),
                None => before,
            }
        }
    }

    /// Takes the values of a saved state, where it could be read.
    pub fn load_state(&mut self, entries: &Option<Vec<(String, Wide)>>)
        ensures
            *final(self) == (match *entries {
                Some(list) => old(self).loaded(list@, list@.len()),
                None => *old(self),
            }),
    {
        if let Some(list) = entries {
            for i in 0..list.len()
                invariant
                    *self == old(self).loaded(list@, i as nat),
            {
                if let Some(p) = param_by_name(&list[i].0) {
                    self.set(p, list[i].1);
                }
            }
        }
    }
}

/// The values that a reset brings the parameters to.
pub open spec fn reset_targets() -> Seq<(Param, int)> {
    seq![
        (Param::LowGain, 0),
        (Param::BassGain, 0),
        (Param::MidGain, 0),
        (Param::HighMidGain, 0),
        (Param::HighGain, 0),
        (Param::LowWidth, 100),
        (Param::BassWidth, 100),
        (Param::MidWidth, 100),
        (Param::HighMidWidth, 100),
        (Param::HighWidth, 100),
        (Param::LowPan, 0),
        (Param::BassPan, 0),
        (Param::MidPan, 0),
        (Param::HighMidPan, 0),
        (Param::HighPan, 0),
        (Param::OutputGain, 0),
        (Param::MonoFloor, 0),
        (Param::PreMasterTargetDb, -3),
    ]
}

/// The switches that a reset turns off.
pub open spec fn reset_switches() -> Seq<Param> {
    seq![
        Param::MonoActive,
        Param::DeltaActive,
        Param::BypassActive,
        Param::PreMasterActive,
        Param::ListenActive,
        Param::AutoGainActive,
        Param::SoloLow,
        Param::SoloBass,
        Param::SoloMid,
        Param::SoloHighMid,
        Param::SoloHigh,
    ]
}

/// The values that a reset brings the parameters to.
pub fn reset_values() -> (r: Vec<(Param, i32)>)
    ensures
        r@.len() == reset_targets().len(),
        forall|i: int|
            0 <= i < r@.len() ==> (#[trigger] r@[i]).0 == reset_targets()[i].0 && r@[i].1
                == reset_targets()[i].1,
{
    vec![
        (Param::LowGain, 0),
        (Param::BassGain, 0),
        (Param::MidGain, 0),
        (Param::HighMidGain, 0),
        (Param::HighGain, 0),
        (Param::LowWidth, 100),
        (Param::BassWidth, 100),
        (Param::MidWidth, 100),
        (Param::HighMidWidth, 100),
        (Param::HighWidth, 100),
        (Param::LowPan, 0),
        (Param::BassPan, 0),
        (Param::MidPan, 0),
        (Param::HighMidPan, 0),
        (Param::HighPan, 0),
        (Param::OutputGain, 0),
        (Param::MonoFloor, 0),
        (Param::PreMasterTargetDb, -3),
    ]
}

/// The switches that a reset turns off.
pub fn switches_to_reset() -> (r: Vec<Param>)
    ensures
        r@ == reset_switches(),
{
    let r: Vec<Param> = vec![
        Param::MonoActive,
        Param::DeltaActive,
        Param::BypassActive,
        Param::PreMasterActive,
        Param::ListenActive,
        Param::AutoGainActive,
        Param::SoloLow,
        Param::SoloBass,
        Param::SoloMid,
        Param::SoloHighMid,
        Param::SoloHigh,
    ];
    proof {
        assert(r@ =~= reset_switches());
    }
    r
}

/// A reset brings every parameter to a value inside its range.
pub proof fn law_reset_stays_in_range(i: int)
    requires
        0 <= i < reset_targets().len(),
    ensures
        ({
            let (p, v) = reset_targets()[i];
            range_of(p).0 <= v <= range_of(p).1 && !is_switch(p)
        }),
{
}

/// A reset turns off every switch.
pub proof fn law_reset_turns_off_every_switch(p: Param)
    requires
        is_switch(p),
    ensures
        reset_switches().contains(p),
{
    let all = reset_switches();
    assert(all[0] == Param::MonoActive && all[1] == Param::DeltaActive && all[2]
        == Param::BypassActive && all[3] == Param::PreMasterActive && all[4]
        == Param::ListenActive && all[5] == Param::AutoGainActive && all[6] == Param::SoloLow
        && all[7] == Param::SoloBass && all[8] == Param::SoloMid && all[9] == Param::SoloHighMid
        && all[10] == Param::SoloHigh);
}

/// A reset turns off nothing but switches.
pub proof fn law_reset_turns_off_switches(i: int)
    requires
        0 <= i < reset_switches().len(),
    ensures
        is_switch(reset_switches()[i]),
{
}

/// A parameter is found under the name that it is saved under.
pub proof fn law_names_read_back(p: Param)
    ensures
        param_named(param_name(p)) == Some(p),
{
    lemma_names_differ(p);
    assert(param_name(Param::LowGain) == "low_gain"@);
    assert(param_name(Param::BassGain) == "bass_gain"@);
    assert(param_name(Param::MidGain) == "mid_gain"@);
    assert(param_name(Param::HighMidGain) == "high_mid_gain"@);
    assert(param_name(Param::HighGain) == "high_gain"@);
    assert(param_name(Param::LowWidth) == "low_width"@);
    assert(param_name(Param::BassWidth) == "bass_width"@);
    assert(param_name(Param::MidWidth) == "mid_width"@);
    assert(param_name(Param::HighMidWidth) == "high_mid_width"@);
    assert(param_name(Param::HighWidth) == "high_width"@);
    assert(param_name(Param::LowPan) == "low_pan"@);
    assert(param_name(Param::BassPan) == "bass_pan"@);
    assert(param_name(Param::MidPan) == "mid_pan"@);
    assert(param_name(Param::HighMidPan) == "high_mid_pan"@);
    assert(param_name(Param::HighPan) == "high_pan"@);
    assert(param_name(Param::MonoFloor) == "mono_floor"@);
    assert(param_name(Param::OutputGain) == "output_gain"@);
    assert(param_name(Param::SoloLow) == "solo_low"@);
    assert(param_name(Param::SoloBass) == "solo_bass"@);
    assert(param_name(Param::SoloMid) == "solo_mid"@);
    assert(param_name(Param::SoloHighMid) == "solo_high_mid"@);
    assert(param_name(Param::SoloHigh) == "solo_high"@);
    assert(param_name(Param::MonoActive) == "mono_active"@);
    assert(param_name(Param::DeltaActive) == "delta_active"@);
    assert(param_name(Param::ListenActive) == "listen_active"@);
    assert(param_name(Param::AutoGainActive) == "auto_gain_active"@);
    assert(param_name(Param::BypassActive) == "bypass_active"@);
    assert(param_name(Param::PreMasterActive) == "pre_master_active"@);
    assert(param_name(Param::PreMasterTargetDb) == "pre_master_target_db"@);
}

proof fn lemma_names_differ(p: Param)
    ensures
        forall|q: Param| #![trigger param_name(q)] q != p ==> param_name(q) != param_name(p),
{
    assert forall|q: Param| #![trigger param_name(q)] q != p implies param_name(q) != param_name(
        p,
    ) by {
        lemma_two_names_differ(p, q);
    }
}

proof fn lemma_two_names_differ(p: Param, q: Param)
    requires
        p != q,
    ensures
        param_name(q) != param_name(p),
{
    reveal_strlit("low_gain");
    reveal_strlit("bass_gain");
    reveal_strlit("mid_gain");
    reveal_strlit("high_mid_gain");
    reveal_strlit("high_gain");
    reveal_strlit("low_width");
    reveal_strlit("bass_width");
    reveal_strlit("mid_width");
    reveal_strlit("high_mid_width");
    reveal_strlit("high_width");
    reveal_strlit("low_pan");
    reveal_strlit("bass_pan");
    reveal_strlit("mid_pan");
    reveal_strlit("high_mid_pan");
    reveal_strlit("high_pan");
    reveal_strlit("mono_floor");
    reveal_strlit("output_gain");
    reveal_strlit("solo_low");
    reveal_strlit("solo_bass");
    reveal_strlit("solo_mid");
    reveal_strlit("solo_high_mid");
    reveal_strlit("solo_high");
    reveal_strlit("mono_active");
    reveal_strlit("delta_active");
    reveal_strlit("listen_active");
    reveal_strlit("auto_gain_active");
    reveal_strlit("bypass_active");
    reveal_strlit("pre_master_active");
    reveal_strlit("pre_master_target_db");
    if param_name(q) == param_name(p) {
        let a = param_name(p);
        let b = param_name(q);
        assert(a.len() == b.len());
        assert(a[0] == b[0] && a[1] == b[1] && a[2] == b[2] && a[3] == b[3] && a[4] == b[4] && a[5]
            == b[5] && a[6] == b[6]);
        assert(a[a.len() - 1] == b[b.len() - 1]);
        assert(a[a.len() - 2] == b[b.len() - 2]);
    }
}

} // verus!
