//! The editor of Aurum: three tabs of knobs and switches beside the meters.

use crate::aether_params::{next_choice, remainder};
use crate::aurum_params::{AurumParam, AurumParams};
use crate::host::{
    automate_all, automated, automated_all, gesture_edit, gesture_step, push_edit, Edit, ParamValue,
};
use crate::knob::Gesture;
use crate::level::{Level, SILENCE_BITS};
use vstd::prelude::*;
use vstd::string::*;

verus! {

/// How many kinds of harmonics there are.
pub const HARMONICS: i32 = 3;

/// The bit pattern of `-0.01`: a gain reduction from here on is shown as none.
pub const NO_REDUCTION_BITS: u32 = 0xbc23_d70a;

/// What the user or the frame clock tells the editor.
#[derive(Clone, Copy, Debug, PartialEq, Eq)]
pub enum AurumMsg {
    Tick,
    SelectTab(usize),
    ResetPeak,
    ResetAll,
    SatHarmCycled,
    SideToggled,
    MonoToggled,
    DeltaToggled,
    BypassToggled,
    AtToggled,
    ClipMsToggled,
    CompLinkToggled,
    SatMsToggled,
    MbLinkToggled,
    MbModeToggled,
    AtAmountGesture(Gesture),
    OutputGainGesture(Gesture),
    StereoWidthGesture(Gesture),
    MonoFloorGesture(Gesture),
    ClipCeilGesture(Gesture),
    ClipSoftGesture(Gesture),
    EqMLoShGesture(Gesture),
    EqMLoMiGesture(Gesture),
    EqMHiMiGesture(Gesture),
    EqMHiShGesture(Gesture),
    EqSLoShGesture(Gesture),
    EqSLoMiGesture(Gesture),
    EqSHiMiGesture(Gesture),
    EqSHiShGesture(Gesture),
    CompSplitGesture(Gesture),
    CompThrLoGesture(Gesture),
    CompThrHiGesture(Gesture),
    CompRatioGesture(Gesture),
    CompAtkGesture(Gesture),
    CompRelGesture(Gesture),
    CompMixGesture(Gesture),
    SweetHpfGesture(Gesture),
    SweetLpfGesture(Gesture),
    SweetLoGesture(Gesture),
    SweetHiGesture(Gesture),
    SatDrvStGesture(Gesture),
    SatDrvMiGesture(Gesture),
    SatDrvSiGesture(Gesture),
    SatMixGesture(Gesture),
    MbXoverGesture(Gesture),
    MbThrLoGesture(Gesture),
    MbThrHiGesture(Gesture),
    MbThrSiGesture(Gesture),
    MbGainLoGesture(Gesture),
    MbGainHiGesture(Gesture),
    MbGainSiGesture(Gesture),
    MbAtkLoGesture(Gesture),
    MbAtkHiGesture(Gesture),
    MbAtkSiGesture(Gesture),
    MbRelLoGesture(Gesture),
    MbRelHiGesture(Gesture),
    MbRelSiGesture(Gesture),
    MbGainGesture(Gesture),
    MbThrOffGesture(Gesture),
    LimCeilGesture(Gesture),
    LimRelGesture(Gesture),
}

/// The parameter that a message turns, and the step of the gesture.
pub open spec fn turned_by(m: AurumMsg) -> Option<(AurumParam, Gesture)> {
    match m {
        AurumMsg::AtAmountGesture(g) => Some((AurumParam::AtAmount, g)),
        AurumMsg::OutputGainGesture(g) => Some((AurumParam::OutputGain, g)),
        AurumMsg::StereoWidthGesture(g) => Some((AurumParam::StereoWidth, g)),
        AurumMsg::MonoFloorGesture(g) => Some((AurumParam::MonoFloor, g)),
        AurumMsg::ClipCeilGesture(g) => Some((AurumParam::ClipCeiling, g)),
        AurumMsg::ClipSoftGesture(g) => Some((AurumParam::ClipSoftness, g)),
        AurumMsg::EqMLoShGesture(g) => Some((AurumParam::EqMLoShelf, g)),
        AurumMsg::EqMLoMiGesture(g) => Some((AurumParam::EqMLoMid, g)),
        AurumMsg::EqMHiMiGesture(g) => Some((AurumParam::EqMHiMid, g)),
        AurumMsg::EqMHiShGesture(g) => Some((AurumParam::EqMHiShelf, g)),
        AurumMsg::EqSLoShGesture(g) => Some((AurumParam::EqSLoShelf, g)),
        AurumMsg::EqSLoMiGesture(g) => Some((AurumParam::EqSLoMid, g)),
        AurumMsg::EqSHiMiGesture(g) => Some((AurumParam::EqSHiMid, g)),
        AurumMsg::EqSHiShGesture(g) => Some((AurumParam::EqSHiShelf, g)),
        AurumMsg::CompSplitGesture(g) => Some((AurumParam::CompSplit, g)),
        AurumMsg::CompThrLoGesture(g) => Some((AurumParam::CompThreshLo, g)),
        AurumMsg::CompThrHiGesture(g) => Some((AurumParam::CompThreshHi, g)),
        AurumMsg::CompRatioGesture(g) => Some((AurumParam::CompRatio, g)),
        AurumMsg::CompAtkGesture(g) => Some((AurumParam::CompAttack, g)),
        AurumMsg::CompRelGesture(g) => Some((AurumParam::CompRelease, g)),
        AurumMsg::CompMixGesture(g) => Some((AurumParam::CompMix, g)),
        AurumMsg::SweetHpfGesture(g) => Some((AurumParam::SweetHpf, g)),
        AurumMsg::SweetLpfGesture(g) => Some((AurumParam::SweetLpf, g)),
        AurumMsg::SweetLoGesture(g) => Some((AurumParam::SweetLoShelf, g)),
        AurumMsg::SweetHiGesture(g) => Some((AurumParam::SweetHiShelf, g)),
        AurumMsg::SatDrvStGesture(g) => Some((AurumParam::SatDriveStereo, g)),
        AurumMsg::SatDrvMiGesture(g) => Some((AurumParam::SatDriveMid, g)),
        AurumMsg::SatDrvSiGesture(g) => Some((AurumParam::SatDriveSide, g)),
        AurumMsg::SatMixGesture(g) => Some((AurumParam::SatMix, g)),
        AurumMsg::MbXoverGesture(g) => Some((AurumParam::MbCrossover, g)),
        AurumMsg::MbThrLoGesture(g) => Some((AurumParam::MbThreshMidLo, g)),
        AurumMsg::MbThrHiGesture(g) => Some((AurumParam::MbThreshMidHi, g)),
        AurumMsg::MbThrSiGesture(g) => Some((AurumParam::MbThreshSide, g)),
        AurumMsg::MbGainLoGesture(g) => Some((AurumParam::MbGainMidLo, g)),
        AurumMsg::MbGainHiGesture(g) => Some((AurumParam::MbGainMidHi, g)),
        AurumMsg::MbGainSiGesture(g) => Some((AurumParam::MbGainSide, g)),
        AurumMsg::MbAtkLoGesture(g) => Some((AurumParam::MbAttackMidLo, g)),
        AurumMsg::MbAtkHiGesture(g) => Some((AurumParam::MbAttackMidHi, g)),
        AurumMsg::MbAtkSiGesture(g) => Some((AurumParam::MbAttackSide, g)),
        AurumMsg::MbRelLoGesture(g) => Some((AurumParam::MbReleaseMidLo, g)),
        AurumMsg::MbRelHiGesture(g) => Some((AurumParam::MbReleaseMidHi, g)),
        AurumMsg::MbRelSiGesture(g) => Some((AurumParam::MbReleaseSide, g)),
        AurumMsg::MbGainGesture(g) => Some((AurumParam::MbGlobalGain, g)),
        AurumMsg::MbThrOffGesture(g) => Some((AurumParam::MbGlobalThresh, g)),
        AurumMsg::LimCeilGesture(g) => Some((AurumParam::LimCeiling, g)),
        AurumMsg::LimRelGesture(g) => Some((AurumParam::LimRelease, g)),
        _ => None,
    }
}

/// The switch that a message flips.
pub open spec fn flipped_by(m: AurumMsg) -> Option<AurumParam> {
    match m {
        AurumMsg::SideToggled => Some(AurumParam::SideActive),
        AurumMsg::MonoToggled => Some(AurumParam::MonoActive),
        AurumMsg::DeltaToggled => Some(AurumParam::DeltaActive),
        AurumMsg::BypassToggled => Some(AurumParam::BypassActive),
        AurumMsg::AtToggled => Some(AurumParam::AtActive),
        AurumMsg::ClipMsToggled => Some(AurumParam::ClipMsMode),
        AurumMsg::CompLinkToggled => Some(AurumParam::CompLink),
        AurumMsg::SatMsToggled => Some(AurumParam::SatMsMode),
        AurumMsg::MbLinkToggled => Some(AurumParam::MbFaderLink),
        AurumMsg::MbModeToggled => Some(AurumParam::MbMode),
        _ => None,
    }
}

/// The parameter that a message turns, and the step of the gesture.
fn turned_param(m: AurumMsg) -> (r: Option<(AurumParam, Gesture)>)
    ensures
        r == turned_by(m),
{
    match m {
        AurumMsg::AtAmountGesture(g) => Some((AurumParam::AtAmount, g)),
        AurumMsg::OutputGainGesture(g) => Some((AurumParam::OutputGain, g)),
        AurumMsg::StereoWidthGesture(g) => Some((AurumParam::StereoWidth, g)),
        AurumMsg::MonoFloorGesture(g) => Some((AurumParam::MonoFloor, g)),
        AurumMsg::ClipCeilGesture(g) => Some((AurumParam::ClipCeiling, g)),
        AurumMsg::ClipSoftGesture(g) => Some((AurumParam::ClipSoftness, g)),
        AurumMsg::EqMLoShGesture(g) => Some((AurumParam::EqMLoShelf, g)),
        AurumMsg::EqMLoMiGesture(g) => Some((AurumParam::EqMLoMid, g)),
        AurumMsg::EqMHiMiGesture(g) => Some((AurumParam::EqMHiMid, g)),
        AurumMsg::EqMHiShGesture(g) => Some((AurumParam::EqMHiShelf, g)),
        AurumMsg::EqSLoShGesture(g) => Some((AurumParam::EqSLoShelf, g)),
        AurumMsg::EqSLoMiGesture(g) => Some((AurumParam::EqSLoMid, g)),
        AurumMsg::EqSHiMiGesture(g) => Some((AurumParam::EqSHiMid, g)),
        AurumMsg::EqSHiShGesture(g) => Some((AurumParam::EqSHiShelf, g)),
        AurumMsg::CompSplitGesture(g) => Some((AurumParam::CompSplit, g)),
        AurumMsg::CompThrLoGesture(g) => Some((AurumParam::CompThreshLo, g)),
        AurumMsg::CompThrHiGesture(g) => Some((AurumParam::CompThreshHi, g)),
        AurumMsg::CompRatioGesture(g) => Some((AurumParam::CompRatio, g)),
        AurumMsg::CompAtkGesture(g) => Some((AurumParam::CompAttack, g)),
        AurumMsg::CompRelGesture(g) => Some((AurumParam::CompRelease, g)),
        AurumMsg::CompMixGesture(g) => Some((AurumParam::CompMix, g)),
        AurumMsg::SweetHpfGesture(g) => Some((AurumParam::SweetHpf, g)),
        AurumMsg::SweetLpfGesture(g) => Some((AurumParam::SweetLpf, g)),
        AurumMsg::SweetLoGesture(g) => Some((AurumParam::SweetLoShelf, g)),
        AurumMsg::SweetHiGesture(g) => Some((AurumParam::SweetHiShelf, g)),
        AurumMsg::SatDrvStGesture(g) => Some((AurumParam::SatDriveStereo, g)),
        AurumMsg::SatDrvMiGesture(g) => Some((AurumParam::SatDriveMid, g)),
        AurumMsg::SatDrvSiGesture(g) => Some((AurumParam::SatDriveSide, g)),
        AurumMsg::SatMixGesture(g) => Some((AurumParam::SatMix, g)),
        AurumMsg::MbXoverGesture(g) => Some((AurumParam::MbCrossover, g)),
        AurumMsg::MbThrLoGesture(g) => Some((AurumParam::MbThreshMidLo, g)),
        AurumMsg::MbThrHiGesture(g) => Some((AurumParam::MbThreshMidHi, g)),
        AurumMsg::MbThrSiGesture(g) => Some((AurumParam::MbThreshSide, g)),
        AurumMsg::MbGainLoGesture(g) => Some((AurumParam::MbGainMidLo, g)),
        AurumMsg::MbGainHiGesture(g) => Some((AurumParam::MbGainMidHi, g)),
        AurumMsg::MbGainSiGesture(g) => Some((AurumParam::MbGainSide, g)),
        AurumMsg::MbAtkLoGesture(g) => Some((AurumParam::MbAttackMidLo, g)),
        AurumMsg::MbAtkHiGesture(g) => Some((AurumParam::MbAttackMidHi, g)),
        AurumMsg::MbAtkSiGesture(g) => Some((AurumParam::MbAttackSide, g)),
        AurumMsg::MbRelLoGesture(g) => Some((AurumParam::MbReleaseMidLo, g)),
        AurumMsg::MbRelHiGesture(g) => Some((AurumParam::MbReleaseMidHi, g)),
        AurumMsg::MbRelSiGesture(g) => Some((AurumParam::MbReleaseSide, g)),
        AurumMsg::MbGainGesture(g) => Some((AurumParam::MbGlobalGain, g)),
        AurumMsg::MbThrOffGesture(g) => Some((AurumParam::MbGlobalThresh, g)),
        AurumMsg::LimCeilGesture(g) => Some((AurumParam::LimCeiling, g)),
        AurumMsg::LimRelGesture(g) => Some((AurumParam::LimRelease, g)),
        _ => None,
    }
}

/// The switch that a message flips.
fn flipped_param(m: AurumMsg) -> (r: Option<AurumParam>)
    ensures
        r == flipped_by(m),
{
    match m {
        AurumMsg::SideToggled => Some(AurumParam::SideActive),
        AurumMsg::MonoToggled => Some(AurumParam::MonoActive),
        AurumMsg::DeltaToggled => Some(AurumParam::DeltaActive),
        AurumMsg::BypassToggled => Some(AurumParam::BypassActive),
        AurumMsg::AtToggled => Some(AurumParam::AtActive),
        AurumMsg::ClipMsToggled => Some(AurumParam::ClipMsMode),
        AurumMsg::CompLinkToggled => Some(AurumParam::CompLink),
        AurumMsg::SatMsToggled => Some(AurumParam::SatMsMode),
        AurumMsg::MbLinkToggled => Some(AurumParam::MbFaderLink),
        AurumMsg::MbModeToggled => Some(AurumParam::MbMode),
        _ => None,
    }
}

/// What the meters of the plugin stand at.
#[derive(Clone, Copy, Debug, PartialEq, Eq, Structural)]
pub struct AurumMeters {
    pub output_peak: Level,
    pub peak_hold: Level,
    pub peak_l: Level,
    pub peak_r: Level,
    pub peak_hold_l: Level,
    pub peak_hold_r: Level,
    pub phase_correlation: Level,
    pub balance: Level,
}

/// The meters while nothing sounds: silence, in phase and in the middle.
pub open spec fn meters_at_rest() -> AurumMeters {
    let silence = Level { bits: SILENCE_BITS };
    AurumMeters {
        output_peak: silence,
        peak_hold: silence,
        peak_l: silence,
        peak_r: silence,
        peak_hold_l: silence,
        peak_hold_r: silence,
        phase_correlation: Level { bits: 0x3f80_0000 },
        balance: Level { bits: 0 },
    }
}

/// The editor.
#[derive(Clone, Copy, Debug, PartialEq, Eq, Structural)]
pub struct AurumEditor {
    pub params: AurumParams,
    pub selected_tab: usize,
    pub meters: AurumMeters,
}

/// What the editor asks for after a message.
pub struct AurumEffects {
    pub edits: Vec<Edit<AurumParam>>,
    /// Whether the held peaks start again.
    pub reset_peak: bool,
}

/// What a tab shows.
#[derive(Clone, Copy, Debug, PartialEq, Eq, Structural)]
pub enum AurumTab {
    Shape,
    Color,
    Limit,
}

/// The changes of a reset.
pub open spec fn reset_changes() -> Seq<(AurumParam, ParamValue)> {
    seq![
        (AurumParam::ClipCeiling, ParamValue::Number(Level { bits: 0xbf80_0000 })),
        (AurumParam::MbThreshMidLo, ParamValue::Number(Level { bits: 0xc040_0000 })),
        (AurumParam::MbThreshMidHi, ParamValue::Number(Level { bits: 0xc040_0000 })),
        (AurumParam::MbThreshSide, ParamValue::Number(Level { bits: 0xc0c0_0000 })),
        (AurumParam::OutputGain, ParamValue::Number(Level { bits: 0 })),
        (AurumParam::StereoWidth, ParamValue::Number(Level { bits: 0x3f80_0000 })),
    ]
}

/// A reset brings each parameter that it touches to where it starts.
pub proof fn law_a_reset_goes_to_the_start(i: int)
    requires
        0 <= i < reset_changes().len(),
    ensures
        reset_changes()[i].1 == crate::aurum_params::start_value(reset_changes()[i].0),
{
}

/// The changes that a message asks for.
pub open spec fn edits_for(params: AurumParams, m: AurumMsg) -> Seq<Edit<AurumParam>> {
    match (turned_by(m), flipped_by(m)) {
        (Some((p, g)), _) => seq![gesture_step(p, g)],
        (None, Some(p)) => automated(
            p,
            match params.at(p) {
                ParamValue::Switch(on) => ParamValue::Switch(!on),
                v => v,
            },
        ),
        (None, None) => if m == AurumMsg::ResetAll {
            automated_all(reset_changes())
        } else if m == AurumMsg::SatHarmCycled {
            automated(
                AurumParam::SatHarmonics,
                ParamValue::Choice(
                    remainder(params.sat_harmonics + 1, HARMONICS as int) as i32,
                ),
            )
        } else {
            Seq::empty()
        },
    }
}

/// Every message that flips a switch flips one.
pub proof fn law_flips_are_of_switches(params: AurumParams, m: AurumMsg)
    ensures
        flipped_by(m) is Some ==> params.at(flipped_by(m)->0) is Switch,
        flipped_by(m) is Some ==> turned_by(m) is None,
{
}

impl AurumEditor {
    /// An editor on the first tab.
    pub fn new(params: AurumParams) -> (r: AurumEditor)
        ensures
            r == (AurumEditor { params, selected_tab: 0, meters: meters_at_rest() }),
    {
        let silence: Level = Level { bits: SILENCE_BITS };
        AurumEditor {
            params,
            selected_tab: 0,
            meters: AurumMeters {
                output_peak: silence,
                peak_hold: silence,
                peak_l: silence,
                peak_r: silence,
                peak_hold_l: silence,
                peak_hold_r: silence,
                phase_correlation: Level { bits: 0x3f80_0000 },
                balance: Level { bits: 0 },
            },
        }
    }

    /// Handles a message; `meters` is what the meters of the plugin stand at.
    pub fn update(&mut self, m: AurumMsg, meters: AurumMeters) -> (r: AurumEffects)
        requires
            old(self).params.sat_harmonics < i32::MAX,
        ensures
            r.edits@ == edits_for(old(self).params, m),
            r.reset_peak == (m == AurumMsg::ResetPeak || m == AurumMsg::ResetAll),
            *final(self) == (AurumEditor {
                selected_tab: match m {
                    AurumMsg::SelectTab(t) => t,
                    _ => old(self).selected_tab,
                },
                meters: if m == AurumMsg::Tick {
                    meters
                } else {
                    old(self).meters
                },
                ..*old(self)
            }),
    {
        let mut edits: Vec<Edit<AurumParam>> = Vec::new();
        let mut reset_peak: bool = false;
        if let Some((p, g)) = turned_param(m) {
            edits.push(gesture_edit(p, g));
            proof {
                assert(edits@ =~= seq![gesture_step(p, g)]);
            }
            return AurumEffects { edits, reset_peak };
        }
        if let Some(p) = flipped_param(m) {
            let v: ParamValue = match self.params.get(p) {
                ParamValue::Switch(on) => ParamValue::Switch(!on),
                v => v,
            };
            push_edit(&mut edits, p, v);
            proof {
                assert(edits@ =~= automated(p, v));
            }
            return AurumEffects { edits, reset_peak };
        }
        match m {
            AurumMsg::Tick => {
                self.meters = meters;
            },
            AurumMsg::SelectTab(t) => {
                self.selected_tab = t;
            },
            AurumMsg::ResetPeak => {
                reset_peak = true;
            },
            AurumMsg::ResetAll => {
                reset_peak = true;
                let changes: Vec<(AurumParam, ParamValue)> = vec![
                    (AurumParam::ClipCeiling, ParamValue::Number(Level { bits: 0xbf80_0000 })),
                    (AurumParam::MbThreshMidLo, ParamValue::Number(Level { bits: 0xc040_0000 })),
                    (AurumParam::MbThreshMidHi, ParamValue::Number(Level { bits: 0xc040_0000 })),
                    (AurumParam::MbThreshSide, ParamValue::Number(Level { bits: 0xc0c0_0000 })),
                    (AurumParam::OutputGain, ParamValue::Number(Level { bits: 0 })),
                    (AurumParam::StereoWidth, ParamValue::Number(Level { bits: 0x3f80_0000 })),
                ];
                proof {
                    assert(changes@ =~= reset_changes());
                }
                edits = automate_all(&changes);
            },
            AurumMsg::SatHarmCycled => {
                let n: i32 = next_choice(self.params.sat_harmonics, HARMONICS);
                push_edit(&mut edits, AurumParam::SatHarmonics, ParamValue::Choice(n));
                proof {
                    assert(edits@ =~= automated(AurumParam::SatHarmonics, ParamValue::Choice(n)));
                }
            },
            _ => {},
        }
        AurumEffects { edits, reset_peak }
    }

    /// The tab that is shown; a number past the last tab shows the last.
    pub fn shown_tab(&self) -> (r: AurumTab)
        ensures
            r == (if self.selected_tab == 0 {
                AurumTab::Shape
            } else if self.selected_tab == 1 {
                AurumTab::Color
            } else {
                AurumTab::Limit
            }),
    {
        if self.selected_tab == 0 {
            AurumTab::Shape
        } else if self.selected_tab == 1 {
            AurumTab::Color
        } else {
            AurumTab::Limit
        }
    }

    /// What the button for the harmonics shows.
    pub fn harmonics_label(&self) -> (r: String)
        requires
            self.params.sat_harmonics >= 0,
        ensures
            r@ == (if self.params.sat_harmonics % 3 == 0 {
                "EVEN"@
            } else if self.params.sat_harmonics % 3 == 1 {
                "ODD"@
            } else {
                "MIXED"@
            }),
    {
        let n: i32 = self.params.sat_harmonics % 3;
        if n == 0 {
            "EVEN".to_owned()
        } else if n == 1 {
            "ODD".to_owned()
        } else {
            "MIXED".to_owned()
        }
    }

    /// What the button for the mode of the multiband limiter shows.
    pub fn limiter_label(&self) -> (r: String)
        ensures
            r@ == (if self.params.mb_mode {
                "MODERN"@
            } else {
                "CLASSIC"@
            }),
    {
        if self.params.mb_mode {
            "MODERN".to_owned()
        } else {
            "CLASSIC".to_owned()
        }
    }
}

/// A gain reduction as it is shown.
pub open spec fn reduction_text(gr: Level, text: Seq<char>) -> Seq<char> {
    if gr.at_least(Level { bits: NO_REDUCTION_BITS }) {
        "0.0 dB"@
    } else {
        text + " dB"@
    }
}

/// The line under the limiter: the gain reduction and the peaks of both channels.  `text`, `left`
/// and `right` are these levels with one decimal.
pub fn output_line(gr: Level, text: &str, left: &str, right: &str) -> (r: String)
    ensures
        r@ == "GR: "@ + reduction_text(gr, text@) + " | L:"@ + left@ + " R:"@ + right@ + " dB"@,
{
    let mut r: String = "GR: ".to_owned();
    if gr.ge(Level { bits: NO_REDUCTION_BITS }) {
        r.append("0.0 dB");
        proof {
            assert(r@ =~= "GR: "@ + reduction_text(gr, text@));
        }
    } else {
        r.append(text);
        r.append(" dB");
        proof {
            assert(r@ =~= "GR: "@ + reduction_text(gr, text@));
        }
    }
    r.append(" | L:");
    r.append(left);
    r.append(" R:");
    r.append(right);
    r.append(" dB");
    r
}

} // verus!
