//! Aurum, the mastering chain: what a block does, its true peak limiter and its meters.

use crate::aurum_params::AurumParams;
use crate::hold::{held, hold_peak, PeakHolds};
use crate::level::{Level, SILENCE_BITS};
use crate::relay::StateLoadError;
use vstd::prelude::*;

verus! {

/// The bit pattern of `1.0`.
pub const UNITY_BITS: u32 = 0x3f80_0000;

/// The bit pattern of `1e-9`: what is below counts as silence.
pub const FAINT_BITS: u32 = 0x3089_705f;

/// The bit pattern of `44100.0`.
pub const START_RATE_BITS: u32 = 0x472c_4400;

/// The harmonics that the saturator adds.
#[derive(Clone, Copy, Debug, PartialEq, Eq, Structural)]
pub enum HarmonicsMode {
    Even,
    Odd,
    Mixed,
}

/// What is heard of the output.
#[derive(Clone, Copy, Debug, PartialEq, Eq, Structural)]
pub enum MonitorMode {
    Stereo,
    Side,
    Mono,
}

/// What the stages of the chain do during a block.
#[derive(Clone, Copy, Debug, PartialEq, Eq, Structural)]
pub struct ChainPlan {
    pub monitor: MonitorMode,
    pub delta: bool,
    /// The amount of the tolerances, none where they are off.
    pub tolerance: Option<Level>,
    pub clip_ms: bool,
    pub comp_thresh_lo: Level,
    pub comp_thresh_hi: Level,
    pub sat_ms: bool,
    pub harmonics: HarmonicsMode,
    pub mb_classic: bool,
    pub mb_thresh_lo: Level,
    pub mb_thresh_hi: Level,
    pub mb_thresh_side: Level,
    /// Whether the sides below the mono floor are taken out.
    pub mono_floor: bool,
}

/// What becomes of a block.
#[derive(Clone, Copy, Debug, PartialEq, Eq, Structural)]
pub enum Block {
    /// The plugin is bypassed, and a wish to reset the peaks stays open.
    Bypassed,
    /// There is nothing to process.
    Skipped,
    Run(ChainPlan),
}

/// The harmonics behind the number of a choice.
pub open spec fn harmonics_of(n: i32) -> HarmonicsMode {
    if n == 0 {
        HarmonicsMode::Even
    } else if n == 1 {
        HarmonicsMode::Odd
    } else {
        HarmonicsMode::Mixed
    }
}

/// Whether there is a mono floor: the filter needs more than 1 Hz.
pub fn has_mono_floor(freq: Level) -> (r: bool)
    ensures
        r == freq.above(Level { bits: UNITY_BITS }),
{
    freq.gt(Level { bits: UNITY_BITS })
}

/// What the stages of the chain do at the given parameters: linked thresholds follow the lowest
/// band, and the side signal is heard rather than the mono signal where both are asked for.
pub open spec fn chain_plan(p: AurumParams) -> ChainPlan {
    ChainPlan {
        monitor: if p.side_active {
            MonitorMode::Side
        } else if p.mono_active {
            MonitorMode::Mono
        } else {
            MonitorMode::Stereo
        },
        delta: p.delta_active,
        tolerance: if p.at_active {
            Some(p.at_amount)
        } else {
            None
        },
        clip_ms: p.clip_ms_mode,
        comp_thresh_lo: p.comp_thresh_lo,
        comp_thresh_hi: if p.comp_link {
            p.comp_thresh_lo
        } else {
            p.comp_thresh_hi
        },
        sat_ms: p.sat_ms_mode,
        harmonics: harmonics_of(p.sat_harmonics),
        mb_classic: !p.mb_mode,
        mb_thresh_lo: p.mb_thresh_mid_lo,
        mb_thresh_hi: if p.mb_fader_link {
            p.mb_thresh_mid_lo
        } else {
            p.mb_thresh_mid_hi
        },
        mb_thresh_side: if p.mb_fader_link {
            p.mb_thresh_mid_lo
        } else {
            p.mb_thresh_side
        },
        mono_floor: p.mono_floor.above(Level { bits: UNITY_BITS }),
    }
}

/// What the stages of the chain do at the given parameters.
pub fn plan_chain(p: &AurumParams) -> (r: ChainPlan)
    ensures
        r == chain_plan(*p),
{
    ChainPlan {
        monitor: if p.side_active {
            MonitorMode::Side
        } else if p.mono_active {
            MonitorMode::Mono
        } else {
            MonitorMode::Stereo
        },
        delta: p.delta_active,
        tolerance: if p.at_active {
            Some(p.at_amount)
        } else {
            None
        },
        clip_ms: p.clip_ms_mode,
        comp_thresh_lo: p.comp_thresh_lo,
        comp_thresh_hi: if p.comp_link {
            p.comp_thresh_lo
        } else {
            p.comp_thresh_hi
        },
        sat_ms: p.sat_ms_mode,
        harmonics: if p.sat_harmonics == 0 {
            HarmonicsMode::Even
        } else if p.sat_harmonics == 1 {
            HarmonicsMode::Odd
        } else {
            HarmonicsMode::Mixed
        },
        mb_classic: !p.mb_mode,
        mb_thresh_lo: p.mb_thresh_mid_lo,
        mb_thresh_hi: if p.mb_fader_link {
            p.mb_thresh_mid_lo
        } else {
            p.mb_thresh_mid_hi
        },
        mb_thresh_side: if p.mb_fader_link {
            p.mb_thresh_mid_lo
        } else {
            p.mb_thresh_side
        },
        mono_floor: has_mono_floor(p.mono_floor),
    }
}

/// Linked bands share one threshold.
pub proof fn law_linked_bands_share_a_threshold(p: AurumParams)
    ensures
        p.comp_link ==> chain_plan(p).comp_thresh_hi == chain_plan(p).comp_thresh_lo,
        p.mb_fader_link ==> chain_plan(p).mb_thresh_hi == chain_plan(p).mb_thresh_lo
            && chain_plan(p).mb_thresh_side == chain_plan(p).mb_thresh_lo,
{
}

/// The true peak limiter: its gain, and the last samples that left it.
#[derive(Clone, Copy, Debug, PartialEq, Eq, Structural)]
pub struct TruePeakLimiter {
    pub gain: Level,
    pub prev_l: Level,
    pub prev_r: Level,
}

/// The loudest of the samples and of the values between them and their predecessors.
pub open spec fn true_peak_of(l: Level, r: Level, mid_l: Level, mid_r: Level) -> Level {
    l.absolute().larger(r.absolute()).larger(mid_l.absolute()).larger(mid_r.absolute())
}

impl TruePeakLimiter {
    /// A limiter that lets everything through.
    pub fn new() -> (r: TruePeakLimiter)
        ensures
            r == (TruePeakLimiter {
                gain: Level { bits: UNITY_BITS },
                prev_l: Level { bits: 0 },
                prev_r: Level { bits: 0 },
            }),
    {
        TruePeakLimiter {
            gain: Level { bits: UNITY_BITS },
            prev_l: Level { bits: 0 },
            prev_r: Level { bits: 0 },
        }
    }

    /// The gain is at most one.
    pub open spec fn wf(self) -> bool {
        (Level { bits: UNITY_BITS }).at_least(self.gain)
    }

    /// Whether the gain goes from one value to the other for a peak: down to what brings the peak
    /// to the ceiling, if that is lower, and never up.
    pub open spec fn attacked<R: Fn(Level, Level) -> Level>(
        before: Level,
        peak: Level,
        ceiling: Level,
        ratio: R,
        after: Level,
    ) -> bool {
        if peak.above(ceiling) {
            exists|q: Level| #[trigger]
                call_ensures(ratio, (ceiling, peak), q) && after == before.smaller(q)
        } else {
            after == before.smaller(Level { bits: UNITY_BITS })
        }
    }

    /// Takes in the next samples and gives the gain for them.
    ///
    /// `mid_l` and `mid_r` lie halfway between the samples and their predecessors, and `ratio`
    /// divides one level by another.
    pub fn attack<R: Fn(Level, Level) -> Level>(
        &mut self,
        l: Level,
        r: Level,
        mid_l: Level,
        mid_r: Level,
        ceiling: Level,
        ratio: R,
    ) -> (gain: Level)
        requires
            forall|a: Level, b: Level| call_requires(ratio, (a, b)),
        ensures
            Self::attacked(old(self).gain, true_peak_of(l, r, mid_l, mid_r), ceiling, ratio, gain),
            *final(self) == (TruePeakLimiter { gain, ..*old(self) }),
    {
        let peak: Level = l.abs().max(r.abs()).max(mid_l.abs()).max(mid_r.abs());
        let required: Level = if peak.gt(ceiling) {
            ratio(ceiling, peak)
        } else {
            Level { bits: UNITY_BITS }
        };
        self.gain = self.gain.min(required);
        self.gain
    }

    /// Remembers the samples that leave, and lets the gain recover; `relax` gives where it recovers
    /// to by itself.
    pub fn release<G: Fn(Level) -> Level>(&mut self, l: Level, r: Level, relax: G)
        requires
            forall|g: Level| call_requires(relax, (g,)),
        ensures
            final(self).prev_l == l,
            final(self).prev_r == r,
            exists|g: Level| #[trigger]
                call_ensures(relax, (old(self).gain,), g) && final(self).gain == g.smaller(
                    Level { bits: UNITY_BITS },
                ),
            final(self).wf(),
    {
        let g: Level = relax(self.gain);
        self.gain = g.min(Level { bits: UNITY_BITS });
        self.prev_l = l;
        self.prev_r = r;
    }
}

/// The limiter never raises its gain for a peak, and lowers it at least to what the peak needs.
pub proof fn law_the_limiter_yields_to_peaks<R: Fn(Level, Level) -> Level>(
    before: Level,
    peak: Level,
    ceiling: Level,
    ratio: R,
    after: Level,
)
    requires
        TruePeakLimiter::attacked(before, peak, ceiling, ratio, after),
        !before.nan(),
    ensures
        before.at_least(after),
        peak.above(ceiling) ==> exists|q: Level| #[trigger]
            call_ensures(ratio, (ceiling, peak), q) && (q.nan() || q.at_least(after)),
{
}

/// Aurum.
#[derive(Clone, Copy, Debug, PartialEq, Eq, Structural)]
pub struct Aurum {
    pub params: AurumParams,
    pub holds: PeakHolds,
    pub limiter: TruePeakLimiter,
    pub sample_rate: Level,
}

/// What the meters show of a block in dB.
#[derive(Clone, Copy, Debug, PartialEq, Eq, Structural)]
pub struct PeakLevels {
    pub both: Level,
    pub left: Level,
    pub right: Level,
}

/// Whether `db` is a peak in dB: silence for one that is too faint.
pub open spec fn metered<D: Fn(Level) -> Level>(peak: Level, to_db: D, db: Level) -> bool {
    if (Level { bits: FAINT_BITS }).above(peak) {
        db == (Level { bits: SILENCE_BITS })
    } else {
        call_ensures(to_db, (peak,), db)
    }
}

/// A peak in dB; `to_db` converts one that is not too faint.
pub fn meter_level<D: Fn(Level) -> Level>(peak: Level, to_db: &D) -> (r: Level)
    requires
        forall|l: Level| call_requires(*to_db, (l,)),
    ensures
        metered(peak, *to_db, r),
{
    if (Level { bits: FAINT_BITS }).gt(peak) {
        Level { bits: SILENCE_BITS }
    } else {
        to_db(peak)
    }
}

/// The holds of Aurum after a block.
pub open spec fn holds_after(h: PeakHolds, levels: PeakLevels) -> PeakHolds {
    PeakHolds {
        value: h.value.larger(levels.both),
        left: held(h.left, levels.left),
        right: held(h.right, levels.right),
    }
}

impl Aurum {
    /// The chain at the given parameters.
    pub fn new(params: AurumParams) -> (r: Aurum)
        ensures
            r.params == params,
            r.holds == (PeakHolds {
                value: Level { bits: SILENCE_BITS },
                left: Level { bits: SILENCE_BITS },
                right: Level { bits: SILENCE_BITS },
            }),
            r.limiter.gain == (Level { bits: UNITY_BITS }),
            r.limiter.prev_l == (Level { bits: 0 }),
            r.limiter.prev_r == (Level { bits: 0 }),
            r.sample_rate == (Level { bits: START_RATE_BITS }),
            r.limiter.wf(),
    {
        Aurum {
            params,
            holds: PeakHolds::new(Level { bits: SILENCE_BITS }),
            limiter: TruePeakLimiter::new(),
            sample_rate: Level { bits: START_RATE_BITS },
        }
    }

    /// Takes over a sample rate; true where the filter of the mono floor is to be set.
    pub fn reset(&mut self, sr: Level) -> (r: bool)
        ensures
            *final(self) == (Aurum { sample_rate: sr, ..*old(self) }),
            r == old(self).params.mono_floor.above(Level { bits: UNITY_BITS }),
    {
        self.sample_rate = sr;
        has_mono_floor(self.params.mono_floor)
    }

    /// Begins a block of the given channels and samples.
    ///
    /// `reset_peak` tells whether the peaks are to start again; that is done unless the plugin is
    /// bypassed, and the limiter starts again with them.
    pub fn begin_block(&mut self, reset_peak: bool, channels: usize, samples: usize) -> (r: Block)
        ensures
            r == (if old(self).params.bypass_active {
                Block::Bypassed
            } else if channels < 2 || samples == 0 {
                Block::Skipped
            } else {
                Block::Run(chain_plan(old(self).params))
            }),
            *final(self) == (if reset_peak && !old(self).params.bypass_active {
                let silence = Level { bits: SILENCE_BITS };
                Aurum {
                    holds: PeakHolds { value: silence, left: silence, right: silence },
                    limiter: TruePeakLimiter {
                        gain: Level { bits: UNITY_BITS },
                        prev_l: Level { bits: 0 },
                        prev_r: Level { bits: 0 },
                    },
                    ..*old(self)
                }
            } else {
                *old(self)
            }),
    {
        if self.params.bypass_active {
            return Block::Bypassed;
        }
        if reset_peak {
            self.holds.reset(Level { bits: SILENCE_BITS });
            self.limiter = TruePeakLimiter::new();
        }
        if channels < 2 || samples == 0 {
            return Block::Skipped;
        }
        Block::Run(plan_chain(&self.params))
    }

    /// Ends a block with the given peaks: meters them and holds what is loudest.
    pub fn end_block<D: Fn(Level) -> Level>(&mut self, peaks: PeakHolds, to_db: D) -> (r: PeakLevels)
        requires
            forall|l: Level| call_requires(to_db, (l,)),
        ensures
            metered(peaks.value, to_db, r.both),
            metered(peaks.left, to_db, r.left),
            metered(peaks.right, to_db, r.right),
            *final(self) == (Aurum { holds: holds_after(old(self).holds, r), ..*old(self) }),
    {
        let r: PeakLevels = PeakLevels {
            both: meter_level(peaks.value, &to_db),
            left: meter_level(peaks.left, &to_db),
            right: meter_level(peaks.right, &to_db),
        };
        self.holds = PeakHolds {
            value: self.holds.value.max(r.both),
            left: hold_peak(self.holds.left, r.left),
            right: hold_peak(self.holds.right, r.right),
        };
        r
    }

    /// Whether the powers of a block give a balance; else the last one stays.
    pub fn has_balance(total: Level) -> (r: bool)
        ensures
            r == total.above(Level { bits: FAINT_BITS }),
    {
        total.gt(Level { bits: FAINT_BITS })
    }

    /// The state that outlives the plugin beside its parameters: none.
    pub fn save_state(&self) -> (r: Vec<u8>)
        ensures
            r@.len() == 0,
    {
        Vec::new()
    }

    /// Takes over a saved state: there is nothing to take over, whatever was saved.
    pub fn load_state(&mut self, bytes: &Vec<u8>) -> (r: Result<(), StateLoadError>)
        ensures
            r is Ok,
            *final(self) == *old(self),
    {
        Ok(())
    }
}

} // verus!
