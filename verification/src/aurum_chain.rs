//! The signal chain of Aurum: clipper, mid/side equaliser, compressor, sweetening, saturator,
//! multiband limiter, true peak limiter, monitor.

use crate::aurum::{ChainPlan, HarmonicsMode, MonitorMode};
use vstd::prelude::*;

verus! {

/// A stage that a sample passes.
#[derive(Clone, Copy, Debug, PartialEq, Eq, Structural)]
pub enum AurumStage {
    Clip { mid_side: bool },
    Equalise,
    Compress,
    Sweeten,
    Saturate { mid_side: bool, harmonics: HarmonicsMode },
    Widen,
    LimitBands { classic: bool },
    TrimRight,
    MonoFloor,
    OutputGain,
    LimitTruePeaks,
    Monitor(MonitorMode),
    Delta,
}

/// One stage where it is switched on.
pub open spec fn stage_where(on: bool, stage: AurumStage) -> Seq<AurumStage> {
    if on {
        seq![stage]
    } else {
        Seq::empty()
    }
}

/// The stages up to the multiband limiter and the trim behind it.
pub open spec fn shaping_stages(p: ChainPlan) -> Seq<AurumStage> {
    seq![
        AurumStage::Clip { mid_side: p.clip_ms },
        AurumStage::Equalise,
        AurumStage::Compress,
        AurumStage::Sweeten,
        AurumStage::Saturate { mid_side: p.sat_ms, harmonics: p.harmonics },
        AurumStage::Widen,
        AurumStage::LimitBands { classic: p.mb_classic },
        AurumStage::TrimRight,
    ]
}

/// The stages that a sample passes, in order.
pub open spec fn aurum_stages(p: ChainPlan) -> Seq<AurumStage> {
    shaping_stages(p) + stage_where(p.mono_floor, AurumStage::MonoFloor) + seq![
        AurumStage::OutputGain,
        AurumStage::LimitTruePeaks,
    ] + stage_where(p.monitor != MonitorMode::Stereo, AurumStage::Monitor(p.monitor)) + stage_where(
        p.delta,
        AurumStage::Delta,
    )
}

/// The stages that a sample of the block passes, in order.
pub fn chain_stages(p: &ChainPlan) -> (r: Vec<AurumStage>)
    ensures
        r@ == aurum_stages(*p),
{
    let mut r: Vec<AurumStage> = vec![
        AurumStage::Clip { mid_side: p.clip_ms },
        AurumStage::Equalise,
        AurumStage::Compress,
        AurumStage::Sweeten,
        AurumStage::Saturate { mid_side: p.sat_ms, harmonics: p.harmonics },
        AurumStage::Widen,
        AurumStage::LimitBands { classic: p.mb_classic },
        AurumStage::TrimRight,
    ];
    proof {
        assert(r@ =~= shaping_stages(*p));
    }
    if p.mono_floor {
        r.push(AurumStage::MonoFloor);
    }
    proof {
        assert(r@ =~= shaping_stages(*p) + stage_where(p.mono_floor, AurumStage::MonoFloor));
    }
    let ghost shaped = r@;
    r.push(AurumStage::OutputGain);
    r.push(AurumStage::LimitTruePeaks);
    proof {
        assert(r@ =~= shaped + seq![AurumStage::OutputGain, AurumStage::LimitTruePeaks]);
    }
    let ghost limited = r@;
    if p.monitor != MonitorMode::Stereo {
        r.push(AurumStage::Monitor(p.monitor));
    }
    proof {
        assert(r@ =~= limited + stage_where(
            p.monitor != MonitorMode::Stereo,
            AurumStage::Monitor(p.monitor),
        ));
    }
    let ghost heard = r@;
    if p.delta {
        r.push(AurumStage::Delta);
    }
    proof {
        assert(r@ =~= heard + stage_where(p.delta, AurumStage::Delta));
    }
    r
}

/// The place of a stage in the order that every sample keeps to.
pub open spec fn chain_rank(s: AurumStage) -> int {
    match s {
        AurumStage::Clip { mid_side } => 0,
        AurumStage::Equalise => 1,
        AurumStage::Compress => 2,
        AurumStage::Sweeten => 3,
        AurumStage::Saturate { mid_side, harmonics } => 4,
        AurumStage::Widen => 5,
        AurumStage::LimitBands { classic } => 6,
        AurumStage::TrimRight => 7,
        AurumStage::MonoFloor => 8,
        AurumStage::OutputGain => 9,
        AurumStage::LimitTruePeaks => 10,
        AurumStage::Monitor(m) => 11,
        AurumStage::Delta => 12,
    }
}

/// The signal chain keeps its order: clipper, equaliser, compressor, sweetening, saturator,
/// multiband limiter and true peak limiter, and only the monitor behind that.
pub proof fn law_the_monitor_comes_last(p: ChainPlan, i: int, j: int)
    requires
        0 <= i < j < aurum_stages(p).len(),
    ensures
        chain_rank(aurum_stages(p)[i]) < chain_rank(aurum_stages(p)[j]),
        aurum_stages(p).contains(AurumStage::LimitTruePeaks),
        aurum_stages(p)[i] == AurumStage::LimitTruePeaks ==> aurum_stages(p)[j] is Monitor
            || aurum_stages(p)[j] is Delta,
{
    let s = aurum_stages(p);
    let k: int = if p.mono_floor {
        10
    } else {
        9
    };
    assert(s[k] == AurumStage::LimitTruePeaks);
}

} // verus!
