//! The parameters of Aurum: where they start and how far they go.

use crate::host::ParamValue;
use crate::level::Level;
use vstd::prelude::*;

verus! {

/// A parameter.
#[derive(Clone, Copy, Debug, PartialEq, Eq, Structural)]
pub enum AurumParam {
    SideActive,
    MonoActive,
    DeltaActive,
    BypassActive,
    AtActive,
    AtAmount,
    OutputGain,
    StereoWidth,
    MonoFloor,
    ClipCeiling,
    ClipSoftness,
    ClipMsMode,
    EqMLoShelf,
    EqMLoMid,
    EqMHiMid,
    EqMHiShelf,
    EqSLoShelf,
    EqSLoMid,
    EqSHiMid,
    EqSHiShelf,
    CompSplit,
    CompLink,
    CompThreshLo,
    CompThreshHi,
    CompRatio,
    CompAttack,
    CompRelease,
    CompMix,
    SweetHpf,
    SweetLpf,
    SweetLoShelf,
    SweetHiShelf,
    MbCrossover,
    MbThreshMidLo,
    MbThreshMidHi,
    MbThreshSide,
    MbGainMidLo,
    MbGainMidHi,
    MbGainSide,
    MbAttackMidLo,
    MbAttackMidHi,
    MbAttackSide,
    MbReleaseMidLo,
    MbReleaseMidHi,
    MbReleaseSide,
    MbFaderLink,
    MbGlobalGain,
    MbGlobalThresh,
    MbMode,
    LimCeiling,
    LimRelease,
    SatMsMode,
    SatDriveStereo,
    SatDriveMid,
    SatDriveSide,
    SatMix,
    SatHarmonics,
}

/// What the parameters stand at.  Numbers are in the unit of the parameter.
#[derive(Clone, Copy, Debug, PartialEq, Eq, Structural)]
pub struct AurumParams {
    pub side_active: bool,
    pub mono_active: bool,
    pub delta_active: bool,
    pub bypass_active: bool,
    pub at_active: bool,
    pub at_amount: Level,
    pub output_gain: Level,
    pub stereo_width: Level,
    pub mono_floor: Level,
    pub clip_ceiling: Level,
    pub clip_softness: Level,
    pub clip_ms_mode: bool,
    pub eq_m_lo_shelf: Level,
    pub eq_m_lo_mid: Level,
    pub eq_m_hi_mid: Level,
    pub eq_m_hi_shelf: Level,
    pub eq_s_lo_shelf: Level,
    pub eq_s_lo_mid: Level,
    pub eq_s_hi_mid: Level,
    pub eq_s_hi_shelf: Level,
    pub comp_split: Level,
    pub comp_link: bool,
    pub comp_thresh_lo: Level,
    pub comp_thresh_hi: Level,
    pub comp_ratio: Level,
    pub comp_attack: Level,
    pub comp_release: Level,
    pub comp_mix: Level,
    pub sweet_hpf: Level,
    pub sweet_lpf: Level,
    pub sweet_lo_shelf: Level,
    pub sweet_hi_shelf: Level,
    pub mb_crossover: Level,
    pub mb_thresh_mid_lo: Level,
    pub mb_thresh_mid_hi: Level,
    pub mb_thresh_side: Level,
    pub mb_gain_mid_lo: Level,
    pub mb_gain_mid_hi: Level,
    pub mb_gain_side: Level,
    pub mb_attack_mid_lo: Level,
    pub mb_attack_mid_hi: Level,
    pub mb_attack_side: Level,
    pub mb_release_mid_lo: Level,
    pub mb_release_mid_hi: Level,
    pub mb_release_side: Level,
    pub mb_fader_link: bool,
    pub mb_global_gain: Level,
    pub mb_global_thresh: Level,
    pub mb_mode: bool,
    pub lim_ceiling: Level,
    pub lim_release: Level,
    pub sat_ms_mode: bool,
    pub sat_drive_stereo: Level,
    pub sat_drive_mid: Level,
    pub sat_drive_side: Level,
    pub sat_mix: Level,
    pub sat_harmonics: i32,
}

/// Where a parameter starts.
pub open spec fn start_value(p: AurumParam) -> ParamValue {
    match p {
        AurumParam::SideActive => ParamValue::Switch(false),
        AurumParam::MonoActive => ParamValue::Switch(false),
        AurumParam::DeltaActive => ParamValue::Switch(false),
        AurumParam::BypassActive => ParamValue::Switch(false),
        AurumParam::AtActive => ParamValue::Switch(false),
        AurumParam::AtAmount => ParamValue::Number(Level { bits: 0x4248_0000 }),
        AurumParam::OutputGain => ParamValue::Number(Level { bits: 0x0000_0000 }),
        AurumParam::StereoWidth => ParamValue::Number(Level { bits: 0x3f80_0000 }),
        AurumParam::MonoFloor => ParamValue::Number(Level { bits: 0x0000_0000 }),
        AurumParam::ClipCeiling => ParamValue::Number(Level { bits: 0xbf80_0000 }),
        AurumParam::ClipSoftness => ParamValue::Number(Level { bits: 0x4248_0000 }),
        AurumParam::ClipMsMode => ParamValue::Switch(false),
        AurumParam::EqMLoShelf => ParamValue::Number(Level { bits: 0x0000_0000 }),
        AurumParam::EqMLoMid => ParamValue::Number(Level { bits: 0x0000_0000 }),
        AurumParam::EqMHiMid => ParamValue::Number(Level { bits: 0x0000_0000 }),
        AurumParam::EqMHiShelf => ParamValue::Number(Level { bits: 0x0000_0000 }),
        AurumParam::EqSLoShelf => ParamValue::Number(Level { bits: 0x0000_0000 }),
        AurumParam::EqSLoMid => ParamValue::Number(Level { bits: 0x0000_0000 }),
        AurumParam::EqSHiMid => ParamValue::Number(Level { bits: 0x0000_0000 }),
        AurumParam::EqSHiShelf => ParamValue::Number(Level { bits: 0x0000_0000 }),
        AurumParam::CompSplit => ParamValue::Number(Level { bits: 0x4348_0000 }),
        AurumParam::CompLink => ParamValue::Switch(false),
        AurumParam::CompThreshLo => ParamValue::Number(Level { bits: 0xc140_0000 }),
        AurumParam::CompThreshHi => ParamValue::Number(Level { bits: 0xc140_0000 }),
        AurumParam::CompRatio => ParamValue::Number(Level { bits: 0x3fc0_0000 }),
        AurumParam::CompAttack => ParamValue::Number(Level { bits: 0x41f0_0000 }),
        AurumParam::CompRelease => ParamValue::Number(Level { bits: 0x4316_0000 }),
        AurumParam::CompMix => ParamValue::Number(Level { bits: 0x4248_0000 }),
        AurumParam::SweetHpf => ParamValue::Number(Level { bits: 0x41c0_0000 }),
        AurumParam::SweetLpf => ParamValue::Number(Level { bits: 0x4708_b800 }),
        AurumParam::SweetLoShelf => ParamValue::Number(Level { bits: 0x0000_0000 }),
        AurumParam::SweetHiShelf => ParamValue::Number(Level { bits: 0x0000_0000 }),
        AurumParam::MbCrossover => ParamValue::Number(Level { bits: 0x437a_0000 }),
        AurumParam::MbThreshMidLo => ParamValue::Number(Level { bits: 0xc040_0000 }),
        AurumParam::MbThreshMidHi => ParamValue::Number(Level { bits: 0xc040_0000 }),
        AurumParam::MbThreshSide => ParamValue::Number(Level { bits: 0xc0c0_0000 }),
        AurumParam::MbGainMidLo => ParamValue::Number(Level { bits: 0x0000_0000 }),
        AurumParam::MbGainMidHi => ParamValue::Number(Level { bits: 0x0000_0000 }),
        AurumParam::MbGainSide => ParamValue::Number(Level { bits: 0x0000_0000 }),
        AurumParam::MbAttackMidLo => ParamValue::Number(Level { bits: 0x40a0_0000 }),
        AurumParam::MbAttackMidHi => ParamValue::Number(Level { bits: 0x4000_0000 }),
        AurumParam::MbAttackSide => ParamValue::Number(Level { bits: 0x40a0_0000 }),
        AurumParam::MbReleaseMidLo => ParamValue::Number(Level { bits: 0x42c8_0000 }),
        AurumParam::MbReleaseMidHi => ParamValue::Number(Level { bits: 0x42a0_0000 }),
        AurumParam::MbReleaseSide => ParamValue::Number(Level { bits: 0x4316_0000 }),
        AurumParam::MbFaderLink => ParamValue::Switch(false),
        AurumParam::MbGlobalGain => ParamValue::Number(Level { bits: 0x0000_0000 }),
        AurumParam::MbGlobalThresh => ParamValue::Number(Level { bits: 0x0000_0000 }),
        AurumParam::MbMode => ParamValue::Switch(true),
        AurumParam::LimCeiling => ParamValue::Number(Level { bits: 0xbf80_0000 }),
        AurumParam::LimRelease => ParamValue::Number(Level { bits: 0x42c8_0000 }),
        AurumParam::SatMsMode => ParamValue::Switch(false),
        AurumParam::SatDriveStereo => ParamValue::Number(Level { bits: 0x0000_0000 }),
        AurumParam::SatDriveMid => ParamValue::Number(Level { bits: 0x0000_0000 }),
        AurumParam::SatDriveSide => ParamValue::Number(Level { bits: 0x0000_0000 }),
        AurumParam::SatMix => ParamValue::Number(Level { bits: 0x41a0_0000 }),
        AurumParam::SatHarmonics => ParamValue::Choice(2),
    }
}

/// The lowest and the highest value of a parameter that is a number, none for the others.
pub open spec fn range_of(p: AurumParam) -> Option<(Level, Level)> {
    match p {
        AurumParam::AtAmount => Some((Level { bits: 0x0000_0000 }, Level { bits: 0x42c8_0000 })),
        AurumParam::OutputGain => Some((Level { bits: 0xc140_0000 }, Level { bits: 0x4140_0000 })),
        AurumParam::StereoWidth => Some((Level { bits: 0x0000_0000 }, Level { bits: 0x4000_0000 })),
        AurumParam::MonoFloor => Some((Level { bits: 0x0000_0000 }, Level { bits: 0x4396_0000 })),
        AurumParam::ClipCeiling => Some((Level { bits: 0xc0c0_0000 }, Level { bits: 0xbdcc_cccd })),
        AurumParam::ClipSoftness => Some((Level { bits: 0x0000_0000 }, Level { bits: 0x42c8_0000 })),
        AurumParam::EqMLoShelf => Some((Level { bits: 0xc0c0_0000 }, Level { bits: 0x40c0_0000 })),
        AurumParam::EqMLoMid => Some((Level { bits: 0xc0c0_0000 }, Level { bits: 0x40c0_0000 })),
        AurumParam::EqMHiMid => Some((Level { bits: 0xc0c0_0000 }, Level { bits: 0x40c0_0000 })),
        AurumParam::EqMHiShelf => Some((Level { bits: 0xc0c0_0000 }, Level { bits: 0x40c0_0000 })),
        AurumParam::EqSLoShelf => Some((Level { bits: 0xc0c0_0000 }, Level { bits: 0x40c0_0000 })),
        AurumParam::EqSLoMid => Some((Level { bits: 0xc0c0_0000 }, Level { bits: 0x40c0_0000 })),
        AurumParam::EqSHiMid => Some((Level { bits: 0xc0c0_0000 }, Level { bits: 0x40c0_0000 })),
        AurumParam::EqSHiShelf => Some((Level { bits: 0xc0c0_0000 }, Level { bits: 0x40c0_0000 })),
        AurumParam::CompSplit => Some((Level { bits: 0x42a0_0000 }, Level { bits: 0x43fa_0000 })),
        AurumParam::CompThreshLo => Some((Level { bits: 0xc1f0_0000 }, Level { bits: 0x0000_0000 })),
        AurumParam::CompThreshHi => Some((Level { bits: 0xc1f0_0000 }, Level { bits: 0x0000_0000 })),
        AurumParam::CompRatio => Some((Level { bits: 0x3f99_999a }, Level { bits: 0x4040_0000 })),
        AurumParam::CompAttack => Some((Level { bits: 0x4120_0000 }, Level { bits: 0x42c8_0000 })),
        AurumParam::CompRelease => Some((Level { bits: 0x4248_0000 }, Level { bits: 0x43fa_0000 })),
        AurumParam::CompMix => Some((Level { bits: 0x0000_0000 }, Level { bits: 0x42c8_0000 })),
        AurumParam::SweetHpf => Some((Level { bits: 0x4120_0000 }, Level { bits: 0x4270_0000 })),
        AurumParam::SweetLpf => Some((Level { bits: 0x468c_a000 }, Level { bits: 0x471c_4000 })),
        AurumParam::SweetLoShelf => Some((Level { bits: 0xc080_0000 }, Level { bits: 0x4080_0000 })),
        AurumParam::SweetHiShelf => Some((Level { bits: 0xc080_0000 }, Level { bits: 0x4080_0000 })),
        AurumParam::MbCrossover => Some((Level { bits: 0x41a0_0000 }, Level { bits: 0x43fa_0000 })),
        AurumParam::MbThreshMidLo => Some((Level { bits: 0xc190_0000 }, Level { bits: 0x0000_0000 })),
        AurumParam::MbThreshMidHi => Some((Level { bits: 0xc190_0000 }, Level { bits: 0x0000_0000 })),
        AurumParam::MbThreshSide => Some((Level { bits: 0xc190_0000 }, Level { bits: 0x0000_0000 })),
        AurumParam::MbGainMidLo => Some((Level { bits: 0xc0c0_0000 }, Level { bits: 0x40c0_0000 })),
        AurumParam::MbGainMidHi => Some((Level { bits: 0xc0c0_0000 }, Level { bits: 0x40c0_0000 })),
        AurumParam::MbGainSide => Some((Level { bits: 0xc0c0_0000 }, Level { bits: 0x40c0_0000 })),
        AurumParam::MbAttackMidLo => Some((Level { bits: 0x3dcc_cccd }, Level { bits: 0x4248_0000 })),
        AurumParam::MbAttackMidHi => Some((Level { bits: 0x3dcc_cccd }, Level { bits: 0x4248_0000 })),
        AurumParam::MbAttackSide => Some((Level { bits: 0x3dcc_cccd }, Level { bits: 0x4248_0000 })),
        AurumParam::MbReleaseMidLo => Some((Level { bits: 0x4120_0000 }, Level { bits: 0x43fa_0000 })),
        AurumParam::MbReleaseMidHi => Some((Level { bits: 0x4120_0000 }, Level { bits: 0x43fa_0000 })),
        AurumParam::MbReleaseSide => Some((Level { bits: 0x4120_0000 }, Level { bits: 0x43fa_0000 })),
        AurumParam::MbGlobalGain => Some((Level { bits: 0xc0c0_0000 }, Level { bits: 0x40c0_0000 })),
        AurumParam::MbGlobalThresh => Some((Level { bits: 0xc190_0000 }, Level { bits: 0x0000_0000 })),
        AurumParam::LimCeiling => Some((Level { bits: 0xc0c0_0000 }, Level { bits: 0xbdcc_cccd })),
        AurumParam::LimRelease => Some((Level { bits: 0x4120_0000 }, Level { bits: 0x43fa_0000 })),
        AurumParam::SatDriveStereo => Some((Level { bits: 0x0000_0000 }, Level { bits: 0x4140_0000 })),
        AurumParam::SatDriveMid => Some((Level { bits: 0x0000_0000 }, Level { bits: 0x4140_0000 })),
        AurumParam::SatDriveSide => Some((Level { bits: 0x0000_0000 }, Level { bits: 0x4140_0000 })),
        AurumParam::SatMix => Some((Level { bits: 0x0000_0000 }, Level { bits: 0x4270_0000 })),
        _ => None,
    }
}

impl AurumParams {
    /// What a parameter stands at.
    pub open spec fn at(self, p: AurumParam) -> ParamValue {
        match p {
            AurumParam::SideActive => ParamValue::Switch(self.side_active),
            AurumParam::MonoActive => ParamValue::Switch(self.mono_active),
            AurumParam::DeltaActive => ParamValue::Switch(self.delta_active),
            AurumParam::BypassActive => ParamValue::Switch(self.bypass_active),
            AurumParam::AtActive => ParamValue::Switch(self.at_active),
            AurumParam::AtAmount => ParamValue::Number(self.at_amount),
            AurumParam::OutputGain => ParamValue::Number(self.output_gain),
            AurumParam::StereoWidth => ParamValue::Number(self.stereo_width),
            AurumParam::MonoFloor => ParamValue::Number(self.mono_floor),
            AurumParam::ClipCeiling => ParamValue::Number(self.clip_ceiling),
            AurumParam::ClipSoftness => ParamValue::Number(self.clip_softness),
            AurumParam::ClipMsMode => ParamValue::Switch(self.clip_ms_mode),
            AurumParam::EqMLoShelf => ParamValue::Number(self.eq_m_lo_shelf),
            AurumParam::EqMLoMid => ParamValue::Number(self.eq_m_lo_mid),
            AurumParam::EqMHiMid => ParamValue::Number(self.eq_m_hi_mid),
            AurumParam::EqMHiShelf => ParamValue::Number(self.eq_m_hi_shelf),
            AurumParam::EqSLoShelf => ParamValue::Number(self.eq_s_lo_shelf),
            AurumParam::EqSLoMid => ParamValue::Number(self.eq_s_lo_mid),
            AurumParam::EqSHiMid => ParamValue::Number(self.eq_s_hi_mid),
            AurumParam::EqSHiShelf => ParamValue::Number(self.eq_s_hi_shelf),
            AurumParam::CompSplit => ParamValue::Number(self.comp_split),
            AurumParam::CompLink => ParamValue::Switch(self.comp_link),
            AurumParam::CompThreshLo => ParamValue::Number(self.comp_thresh_lo),
            AurumParam::CompThreshHi => ParamValue::Number(self.comp_thresh_hi),
            AurumParam::CompRatio => ParamValue::Number(self.comp_ratio),
            AurumParam::CompAttack => ParamValue::Number(self.comp_attack),
            AurumParam::CompRelease => ParamValue::Number(self.comp_release),
            AurumParam::CompMix => ParamValue::Number(self.comp_mix),
            AurumParam::SweetHpf => ParamValue::Number(self.sweet_hpf),
            AurumParam::SweetLpf => ParamValue::Number(self.sweet_lpf),
            AurumParam::SweetLoShelf => ParamValue::Number(self.sweet_lo_shelf),
            AurumParam::SweetHiShelf => ParamValue::Number(self.sweet_hi_shelf),
            AurumParam::MbCrossover => ParamValue::Number(self.mb_crossover),
            AurumParam::MbThreshMidLo => ParamValue::Number(self.mb_thresh_mid_lo),
            AurumParam::MbThreshMidHi => ParamValue::Number(self.mb_thresh_mid_hi),
            AurumParam::MbThreshSide => ParamValue::Number(self.mb_thresh_side),
            AurumParam::MbGainMidLo => ParamValue::Number(self.mb_gain_mid_lo),
            AurumParam::MbGainMidHi => ParamValue::Number(self.mb_gain_mid_hi),
            AurumParam::MbGainSide => ParamValue::Number(self.mb_gain_side),
            AurumParam::MbAttackMidLo => ParamValue::Number(self.mb_attack_mid_lo),
            AurumParam::MbAttackMidHi => ParamValue::Number(self.mb_attack_mid_hi),
            AurumParam::MbAttackSide => ParamValue::Number(self.mb_attack_side),
            AurumParam::MbReleaseMidLo => ParamValue::Number(self.mb_release_mid_lo),
            AurumParam::MbReleaseMidHi => ParamValue::Number(self.mb_release_mid_hi),
            AurumParam::MbReleaseSide => ParamValue::Number(self.mb_release_side),
            AurumParam::MbFaderLink => ParamValue::Switch(self.mb_fader_link),
            AurumParam::MbGlobalGain => ParamValue::Number(self.mb_global_gain),
            AurumParam::MbGlobalThresh => ParamValue::Number(self.mb_global_thresh),
            AurumParam::MbMode => ParamValue::Switch(self.mb_mode),
            AurumParam::LimCeiling => ParamValue::Number(self.lim_ceiling),
            AurumParam::LimRelease => ParamValue::Number(self.lim_release),
            AurumParam::SatMsMode => ParamValue::Switch(self.sat_ms_mode),
            AurumParam::SatDriveStereo => ParamValue::Number(self.sat_drive_stereo),
            AurumParam::SatDriveMid => ParamValue::Number(self.sat_drive_mid),
            AurumParam::SatDriveSide => ParamValue::Number(self.sat_drive_side),
            AurumParam::SatMix => ParamValue::Number(self.sat_mix),
            AurumParam::SatHarmonics => ParamValue::Choice(self.sat_harmonics),
        }
    }

    /// Every parameter at its start.
    pub fn new() -> (r: AurumParams)
        ensures
            forall|p: AurumParam| #[trigger] r.at(p) == start_value(p),
    {
        AurumParams {
            side_active: false,
            mono_active: false,
            delta_active: false,
            bypass_active: false,
            at_active: false,
            at_amount: Level { bits: 0x4248_0000 },
            output_gain: Level { bits: 0x0000_0000 },
            stereo_width: Level { bits: 0x3f80_0000 },
            mono_floor: Level { bits: 0x0000_0000 },
            clip_ceiling: Level { bits: 0xbf80_0000 },
            clip_softness: Level { bits: 0x4248_0000 },
            clip_ms_mode: false,
            eq_m_lo_shelf: Level { bits: 0x0000_0000 },
            eq_m_lo_mid: Level { bits: 0x0000_0000 },
            eq_m_hi_mid: Level { bits: 0x0000_0000 },
            eq_m_hi_shelf: Level { bits: 0x0000_0000 },
            eq_s_lo_shelf: Level { bits: 0x0000_0000 },
            eq_s_lo_mid: Level { bits: 0x0000_0000 },
            eq_s_hi_mid: Level { bits: 0x0000_0000 },
            eq_s_hi_shelf: Level { bits: 0x0000_0000 },
            comp_split: Level { bits: 0x4348_0000 },
            comp_link: false,
            comp_thresh_lo: Level { bits: 0xc140_0000 },
            comp_thresh_hi: Level { bits: 0xc140_0000 },
            comp_ratio: Level { bits: 0x3fc0_0000 },
            comp_attack: Level { bits: 0x41f0_0000 },
            comp_release: Level { bits: 0x4316_0000 },
            comp_mix: Level { bits: 0x4248_0000 },
            sweet_hpf: Level { bits: 0x41c0_0000 },
            sweet_lpf: Level { bits: 0x4708_b800 },
            sweet_lo_shelf: Level { bits: 0x0000_0000 },
            sweet_hi_shelf: Level { bits: 0x0000_0000 },
            mb_crossover: Level { bits: 0x437a_0000 },
            mb_thresh_mid_lo: Level { bits: 0xc040_0000 },
            mb_thresh_mid_hi: Level { bits: 0xc040_0000 },
            mb_thresh_side: Level { bits: 0xc0c0_0000 },
            mb_gain_mid_lo: Level { bits: 0x0000_0000 },
            mb_gain_mid_hi: Level { bits: 0x0000_0000 },
            mb_gain_side: Level { bits: 0x0000_0000 },
            mb_attack_mid_lo: Level { bits: 0x40a0_0000 },
            mb_attack_mid_hi: Level { bits: 0x4000_0000 },
            mb_attack_side: Level { bits: 0x40a0_0000 },
            mb_release_mid_lo: Level { bits: 0x42c8_0000 },
            mb_release_mid_hi: Level { bits: 0x42a0_0000 },
            mb_release_side: Level { bits: 0x4316_0000 },
            mb_fader_link: false,
            mb_global_gain: Level { bits: 0x0000_0000 },
            mb_global_thresh: Level { bits: 0x0000_0000 },
            mb_mode: true,
            lim_ceiling: Level { bits: 0xbf80_0000 },
            lim_release: Level { bits: 0x42c8_0000 },
            sat_ms_mode: false,
            sat_drive_stereo: Level { bits: 0x0000_0000 },
            sat_drive_mid: Level { bits: 0x0000_0000 },
            sat_drive_side: Level { bits: 0x0000_0000 },
            sat_mix: Level { bits: 0x41a0_0000 },
            sat_harmonics: 2,
        }
    }

    /// What a parameter stands at.
    pub fn get(&self, p: AurumParam) -> (r: ParamValue)
        ensures
            r == self.at(p),
    {
        match p {
            AurumParam::SideActive => ParamValue::Switch(self.side_active),
            AurumParam::MonoActive => ParamValue::Switch(self.mono_active),
            AurumParam::DeltaActive => ParamValue::Switch(self.delta_active),
            AurumParam::BypassActive => ParamValue::Switch(self.bypass_active),
            AurumParam::AtActive => ParamValue::Switch(self.at_active),
            AurumParam::AtAmount => ParamValue::Number(self.at_amount),
            AurumParam::OutputGain => ParamValue::Number(self.output_gain),
            AurumParam::StereoWidth => ParamValue::Number(self.stereo_width),
            AurumParam::MonoFloor => ParamValue::Number(self.mono_floor),
            AurumParam::ClipCeiling => ParamValue::Number(self.clip_ceiling),
            AurumParam::ClipSoftness => ParamValue::Number(self.clip_softness),
            AurumParam::ClipMsMode => ParamValue::Switch(self.clip_ms_mode),
            AurumParam::EqMLoShelf => ParamValue::Number(self.eq_m_lo_shelf),
            AurumParam::EqMLoMid => ParamValue::Number(self.eq_m_lo_mid),
            AurumParam::EqMHiMid => ParamValue::Number(self.eq_m_hi_mid),
            AurumParam::EqMHiShelf => ParamValue::Number(self.eq_m_hi_shelf),
            AurumParam::EqSLoShelf => ParamValue::Number(self.eq_s_lo_shelf),
            AurumParam::EqSLoMid => ParamValue::Number(self.eq_s_lo_mid),
            AurumParam::EqSHiMid => ParamValue::Number(self.eq_s_hi_mid),
            AurumParam::EqSHiShelf => ParamValue::Number(self.eq_s_hi_shelf),
            AurumParam::CompSplit => ParamValue::Number(self.comp_split),
            AurumParam::CompLink => ParamValue::Switch(self.comp_link),
            AurumParam::CompThreshLo => ParamValue::Number(self.comp_thresh_lo),
            AurumParam::CompThreshHi => ParamValue::Number(self.comp_thresh_hi),
            AurumParam::CompRatio => ParamValue::Number(self.comp_ratio),
            AurumParam::CompAttack => ParamValue::Number(self.comp_attack),
            AurumParam::CompRelease => ParamValue::Number(self.comp_release),
            AurumParam::CompMix => ParamValue::Number(self.comp_mix),
            AurumParam::SweetHpf => ParamValue::Number(self.sweet_hpf),
            AurumParam::SweetLpf => ParamValue::Number(self.sweet_lpf),
            AurumParam::SweetLoShelf => ParamValue::Number(self.sweet_lo_shelf),
            AurumParam::SweetHiShelf => ParamValue::Number(self.sweet_hi_shelf),
            AurumParam::MbCrossover => ParamValue::Number(self.mb_crossover),
            AurumParam::MbThreshMidLo => ParamValue::Number(self.mb_thresh_mid_lo),
            AurumParam::MbThreshMidHi => ParamValue::Number(self.mb_thresh_mid_hi),
            AurumParam::MbThreshSide => ParamValue::Number(self.mb_thresh_side),
            AurumParam::MbGainMidLo => ParamValue::Number(self.mb_gain_mid_lo),
            AurumParam::MbGainMidHi => ParamValue::Number(self.mb_gain_mid_hi),
            AurumParam::MbGainSide => ParamValue::Number(self.mb_gain_side),
            AurumParam::MbAttackMidLo => ParamValue::Number(self.mb_attack_mid_lo),
            AurumParam::MbAttackMidHi => ParamValue::Number(self.mb_attack_mid_hi),
            AurumParam::MbAttackSide => ParamValue::Number(self.mb_attack_side),
            AurumParam::MbReleaseMidLo => ParamValue::Number(self.mb_release_mid_lo),
            AurumParam::MbReleaseMidHi => ParamValue::Number(self.mb_release_mid_hi),
            AurumParam::MbReleaseSide => ParamValue::Number(self.mb_release_side),
            AurumParam::MbFaderLink => ParamValue::Switch(self.mb_fader_link),
            AurumParam::MbGlobalGain => ParamValue::Number(self.mb_global_gain),
            AurumParam::MbGlobalThresh => ParamValue::Number(self.mb_global_thresh),
            AurumParam::MbMode => ParamValue::Switch(self.mb_mode),
            AurumParam::LimCeiling => ParamValue::Number(self.lim_ceiling),
            AurumParam::LimRelease => ParamValue::Number(self.lim_release),
            AurumParam::SatMsMode => ParamValue::Switch(self.sat_ms_mode),
            AurumParam::SatDriveStereo => ParamValue::Number(self.sat_drive_stereo),
            AurumParam::SatDriveMid => ParamValue::Number(self.sat_drive_mid),
            AurumParam::SatDriveSide => ParamValue::Number(self.sat_drive_side),
            AurumParam::SatMix => ParamValue::Number(self.sat_mix),
            AurumParam::SatHarmonics => ParamValue::Choice(self.sat_harmonics),
        }
    }
}

/// The lowest and the highest value of a parameter that is a number.
pub fn param_range(p: AurumParam) -> (r: Option<(Level, Level)>)
    ensures
        r == range_of(p),
{
    match p {
        AurumParam::AtAmount => Some((Level { bits: 0x0000_0000 }, Level { bits: 0x42c8_0000 })),
        AurumParam::OutputGain => Some((Level { bits: 0xc140_0000 }, Level { bits: 0x4140_0000 })),
        AurumParam::StereoWidth => Some((Level { bits: 0x0000_0000 }, Level { bits: 0x4000_0000 })),
        AurumParam::MonoFloor => Some((Level { bits: 0x0000_0000 }, Level { bits: 0x4396_0000 })),
        AurumParam::ClipCeiling => Some((Level { bits: 0xc0c0_0000 }, Level { bits: 0xbdcc_cccd })),
        AurumParam::ClipSoftness => Some((Level { bits: 0x0000_0000 }, Level { bits: 0x42c8_0000 })),
        AurumParam::EqMLoShelf => Some((Level { bits: 0xc0c0_0000 }, Level { bits: 0x40c0_0000 })),
        AurumParam::EqMLoMid => Some((Level { bits: 0xc0c0_0000 }, Level { bits: 0x40c0_0000 })),
        AurumParam::EqMHiMid => Some((Level { bits: 0xc0c0_0000 }, Level { bits: 0x40c0_0000 })),
        AurumParam::EqMHiShelf => Some((Level { bits: 0xc0c0_0000 }, Level { bits: 0x40c0_0000 })),
        AurumParam::EqSLoShelf => Some((Level { bits: 0xc0c0_0000 }, Level { bits: 0x40c0_0000 })),
        AurumParam::EqSLoMid => Some((Level { bits: 0xc0c0_0000 }, Level { bits: 0x40c0_0000 })),
        AurumParam::EqSHiMid => Some((Level { bits: 0xc0c0_0000 }, Level { bits: 0x40c0_0000 })),
        AurumParam::EqSHiShelf => Some((Level { bits: 0xc0c0_0000 }, Level { bits: 0x40c0_0000 })),
        AurumParam::CompSplit => Some((Level { bits: 0x42a0_0000 }, Level { bits: 0x43fa_0000 })),
        AurumParam::CompThreshLo => Some((Level { bits: 0xc1f0_0000 }, Level { bits: 0x0000_0000 })),
        AurumParam::CompThreshHi => Some((Level { bits: 0xc1f0_0000 }, Level { bits: 0x0000_0000 })),
        AurumParam::CompRatio => Some((Level { bits: 0x3f99_999a }, Level { bits: 0x4040_0000 })),
        AurumParam::CompAttack => Some((Level { bits: 0x4120_0000 }, Level { bits: 0x42c8_0000 })),
        AurumParam::CompRelease => Some((Level { bits: 0x4248_0000 }, Level { bits: 0x43fa_0000 })),
        AurumParam::CompMix => Some((Level { bits: 0x0000_0000 }, Level { bits: 0x42c8_0000 })),
        AurumParam::SweetHpf => Some((Level { bits: 0x4120_0000 }, Level { bits: 0x4270_0000 })),
        AurumParam::SweetLpf => Some((Level { bits: 0x468c_a000 }, Level { bits: 0x471c_4000 })),
        AurumParam::SweetLoShelf => Some((Level { bits: 0xc080_0000 }, Level { bits: 0x4080_0000 })),
        AurumParam::SweetHiShelf => Some((Level { bits: 0xc080_0000 }, Level { bits: 0x4080_0000 })),
        AurumParam::MbCrossover => Some((Level { bits: 0x41a0_0000 }, Level { bits: 0x43fa_0000 })),
        AurumParam::MbThreshMidLo => Some((Level { bits: 0xc190_0000 }, Level { bits: 0x0000_0000 })),
        AurumParam::MbThreshMidHi => Some((Level { bits: 0xc190_0000 }, Level { bits: 0x0000_0000 })),
        AurumParam::MbThreshSide => Some((Level { bits: 0xc190_0000 }, Level { bits: 0x0000_0000 })),
        AurumParam::MbGainMidLo => Some((Level { bits: 0xc0c0_0000 }, Level { bits: 0x40c0_0000 })),
        AurumParam::MbGainMidHi => Some((Level { bits: 0xc0c0_0000 }, Level { bits: 0x40c0_0000 })),
        AurumParam::MbGainSide => Some((Level { bits: 0xc0c0_0000 }, Level { bits: 0x40c0_0000 })),
        AurumParam::MbAttackMidLo => Some((Level { bits: 0x3dcc_cccd }, Level { bits: 0x4248_0000 })),
        AurumParam::MbAttackMidHi => Some((Level { bits: 0x3dcc_cccd }, Level { bits: 0x4248_0000 })),
        AurumParam::MbAttackSide => Some((Level { bits: 0x3dcc_cccd }, Level { bits: 0x4248_0000 })),
        AurumParam::MbReleaseMidLo => Some((Level { bits: 0x4120_0000 }, Level { bits: 0x43fa_0000 })),
        AurumParam::MbReleaseMidHi => Some((Level { bits: 0x4120_0000 }, Level { bits: 0x43fa_0000 })),
        AurumParam::MbReleaseSide => Some((Level { bits: 0x4120_0000 }, Level { bits: 0x43fa_0000 })),
        AurumParam::MbGlobalGain => Some((Level { bits: 0xc0c0_0000 }, Level { bits: 0x40c0_0000 })),
        AurumParam::MbGlobalThresh => Some((Level { bits: 0xc190_0000 }, Level { bits: 0x0000_0000 })),
        AurumParam::LimCeiling => Some((Level { bits: 0xc0c0_0000 }, Level { bits: 0xbdcc_cccd })),
        AurumParam::LimRelease => Some((Level { bits: 0x4120_0000 }, Level { bits: 0x43fa_0000 })),
        AurumParam::SatDriveStereo => Some((Level { bits: 0x0000_0000 }, Level { bits: 0x4140_0000 })),
        AurumParam::SatDriveMid => Some((Level { bits: 0x0000_0000 }, Level { bits: 0x4140_0000 })),
        AurumParam::SatDriveSide => Some((Level { bits: 0x0000_0000 }, Level { bits: 0x4140_0000 })),
        AurumParam::SatMix => Some((Level { bits: 0x0000_0000 }, Level { bits: 0x4270_0000 })),
        _ => None,
    }
}

/// Every number starts inside its range.
pub proof fn law_parameters_start_in_range(p: AurumParam)
    ensures
        match (start_value(p), range_of(p)) {
            (ParamValue::Number(v), Some((lo, hi))) => v.at_least(lo) && hi.at_least(v),
            (ParamValue::Number(v), None) => false,
            (_, range) => range is None,
        },
{
}

} // verus!
