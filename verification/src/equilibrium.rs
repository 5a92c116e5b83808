//! Equilibrium: what one block of audio does to its state, and what is to be computed for it.

use crate::hold::{block_peaks, loudest, loudest_of_both, PeakHolds};
use crate::level::{Level, SILENCE_BITS};
use crate::scope::Frame;
use crate::snapshot::{mode_of, phase_after, SnapMode, SnapState};
use crate::wide::Wide;
use vstd::prelude::*;

verus! {

/// How many bands there are.
pub const BAND_COUNT: usize = 5;

/// The bit pattern of `1.0`.
pub const ONE_BITS: u32 = 0x3f80_0000;

/// The bit pattern of `88200.0`, the sample rate from which the top is cut.
pub const HIGH_RATE_BITS: u32 = 0x47ac_4400;

/// The bit pattern of `8.0`, the frequency in Hz below which all is cut.
pub const LOW_CUT_BITS: u32 = 0x4100_0000;

/// The bit pattern of `35000.0`, the frequency in Hz above which high sample rates are cut.
pub const HIGH_CUT_BITS: u32 = 0x4708_b800;

/// The bit pattern of `80.0`, where the first two bands meet.
pub const CROSSOVER_LOW_BITS: u32 = 0x42a0_0000;

/// The bit pattern of `300.0`, where the second and the third band meet.
pub const CROSSOVER_BASS_BITS: u32 = 0x4396_0000;

/// The bit pattern of `2000.0`, where the third and the fourth band meet.
pub const CROSSOVER_MID_BITS: u32 = 0x44fa_0000;

/// The bit pattern of `6000.0`, where the last two bands meet.
pub const CROSSOVER_HIGH_BITS: u32 = 0x45bb_8000;

/// The bit pattern of `-999.0`, which stands for a value not seen yet.
pub const UNSEEN_BITS: u32 = 0xc479_c000;

/// The bit pattern of `1e-9`, the power from which a signal counts.
pub const POWER_FLOOR_BITS: u32 = 0x3089_705f;

/// What the user has set for a block.
#[derive(Clone, Copy)]
pub struct Controls {
    pub sample_rate: Level,
    pub mono_floor: Level,
    pub solo: [bool; 5],
    pub bypass: bool,
    pub mono: bool,
    pub delta: bool,
    pub listen: bool,
    pub auto_gain: bool,
    /// The editor asks to start the peak holds again.
    pub reset_peak: bool,
    /// The editor asks to start the analysis again.
    pub reset_analysis: bool,
}

/// What is to be computed for a block.
pub struct BlockPlan {
    /// The filter of the mono floor gets new coefficients.
    pub retune_mono_floor: bool,
    /// The mono floor is applied.
    pub mono_floor_on: bool,
    /// The top is cut.
    pub high_cut: bool,
    /// All filters and averages of the analysis start again.
    pub reset_analysis: bool,
    /// Which bands are heard.
    pub audible: [bool; 5],
    pub mono: bool,
    pub delta: bool,
    pub bypass: bool,
    pub listen: bool,
    pub auto_gain: bool,
    /// Both loudness meters are fed.
    pub measuring: bool,
}

/// Whether the loudness is asked for, and whether it is measured.
#[derive(Clone, Copy, Debug, PartialEq, Eq, Structural)]
pub struct AutoLoud {
    pub trigger: bool,
    pub measuring: bool,
}

/// The gain of the pre-master stage and how it is found.
#[derive(Clone, Copy, Debug, PartialEq, Eq, Structural)]
pub struct PreMaster {
    pub gain: Level,
    pub active_prev: bool,
    pub measure_peak: Level,
    pub measure_count: u32,
}

/// The state of Equilibrium between blocks.
pub struct Equilibrium {
    pub cached_mono_floor_freq: Level,
    pub cached_sample_rate: Level,
    pub holds: PeakHolds,
    pub listen_sample_count: u64,
    pub auto_loud: AutoLoud,
    pub pre_master: PreMaster,
    pub snap: SnapState,
}

/// How the filters are set at a sample rate.
#[derive(Clone, Copy, Debug)]
pub struct Tuning {
    pub sample_rate: Level,
    /// The frequency in Hz below which all is cut.
    pub low_cut: Level,
    /// The frequency in Hz above which all is cut, where that is.
    pub high_cut: Option<Level>,
    /// The frequencies in Hz that the bands meet at.
    pub crossovers: [Level; 4],
    /// The frequency in Hz below which the sides are cut, where that is.
    pub mono_floor: Option<Level>,
}

/// Whether the filters are set for a sample rate: the low cut at 8 Hz always, the high cut at
/// 35 kHz from 88.2 kHz on and only there, the crossovers at 80, 300, 2000 and 6000 Hz, and the
/// mono floor where it is on.
pub open spec fn tuned(t: Tuning, sample_rate: Level, mono_floor: Level) -> bool {
    &&& t.sample_rate == sample_rate
    &&& t.low_cut == (Level { bits: LOW_CUT_BITS })
    &&& t.high_cut == (if sample_rate.at_least(Level { bits: HIGH_RATE_BITS }) {
        Some(Level { bits: HIGH_CUT_BITS })
    } else {
        None
    })
    &&& t.crossovers@ == seq![
        Level { bits: CROSSOVER_LOW_BITS },
        Level { bits: CROSSOVER_BASS_BITS },
        Level { bits: CROSSOVER_MID_BITS },
        Level { bits: CROSSOVER_HIGH_BITS },
    ]
    &&& t.mono_floor == (if mono_floor.above(unity()) {
        Some(mono_floor)
    } else {
        None
    })
}

/// Whether any band is soloed.
pub open spec fn any_solo(solo: Seq<bool>) -> bool {
    solo[0] || solo[1] || solo[2] || solo[3] || solo[4]
}

/// Whether a band is heard: it is soloed, or none is.
pub open spec fn band_heard(solo: Seq<bool>, b: int) -> bool {
    if any_solo(solo) {
        solo[b]
    } else {
        true
    }
}

/// Which bands are heard.
pub fn audible_bands(solo: &[bool; 5]) -> (r: [bool; 5])
    ensures
        forall|b: int| 0 <= b < 5 ==> #[trigger] r@[b] == band_heard(solo@, b),
{
    let any: bool = solo[0] || solo[1] || solo[2] || solo[3] || solo[4];
    if any {
        [solo[0], solo[1], solo[2], solo[3], solo[4]]
    } else {
        [true, true, true, true, true]
    }
}

/// What is sent on: the input where the plugin is bypassed, else what was processed.
pub fn output_of(bypass: bool, dry: Vec<Frame>, wet: Vec<Frame>) -> (r: Vec<Frame>)
    ensures
        r == (if bypass {
            dry
        } else {
            wet
        }),
{
    if bypass {
        dry
    } else {
        wet
    }
}

/// The peaks that the meters show of a block: none where the plugin is bypassed.
pub fn metered_peaks(bypass: bool, left: &Vec<Level>, right: &Vec<Level>) -> (r: PeakHolds)
    requires
        left.len() == right.len(),
    ensures
        r.value == (if bypass {
            Level { bits: 0 }
        } else {
            loudest_of_both(left@, right@, left@.len())
        }),
        r.left == (if bypass {
            Level { bits: 0 }
        } else {
            loudest(left@, left@.len())
        }),
        r.right == (if bypass {
            Level { bits: 0 }
        } else {
            loudest(right@, right@.len())
        }),
{
    if bypass {
        PeakHolds::new(Level { bits: 0 })
    } else {
        block_peaks(left, right)
    }
}

/// How the width of a band is applied.
#[derive(Clone, Copy, Debug, PartialEq, Eq, Structural)]
pub enum WidthCurve {
    /// As it is set.
    Full,
    /// What exceeds one counts for a quarter.
    Quarter,
    /// What exceeds one counts for 65 percent.
    Partial,
}

/// How the width of a band is applied: what exceeds one is tamed in the two lowest bands.
pub fn width_curve(band: usize, width: Level) -> (r: WidthCurve)
    ensures
        r == (if width.above(Level { bits: ONE_BITS }) && band == 0 {
            WidthCurve::Quarter
        } else if width.above(Level { bits: ONE_BITS }) && band == 1 {
            WidthCurve::Partial
        } else {
            WidthCurve::Full
        }),
{
    if width.gt(Level { bits: ONE_BITS }) {
        if band == 0 {
            WidthCurve::Quarter
        } else if band == 1 {
            WidthCurve::Partial
        } else {
            WidthCurve::Full
        }
    } else {
        WidthCurve::Full
    }
}

/// How the range of a band moves with a new power.
#[derive(Clone, Copy, Debug, PartialEq, Eq, Structural)]
pub enum RangeMove {
    /// The power is below the threshold: the range stays.
    Hold,
    /// Both ends of the range start at the power.
    Start,
    /// Both ends move towards the power, fast where it lies outside.
    Follow { lo_fast: bool, hi_fast: bool },
}

/// How the range from `lo` to `hi` moves with a new power.
pub fn range_move(power: Wide, gate: Wide, lo: Wide, hi: Wide) -> (r: RangeMove)
    ensures
        r == (if !power.above(gate) {
            RangeMove::Hold
        } else if !lo.finite() {
            RangeMove::Start
        } else {
            RangeMove::Follow { lo_fast: lo.above(power), hi_fast: power.above(hi) }
        }),
{
    if !power.gt(gate) {
        RangeMove::Hold
    } else if !lo.is_finite() {
        RangeMove::Start
    } else {
        RangeMove::Follow { lo_fast: lo.gt(power), hi_fast: power.gt(hi) }
    }
}

/// The end of a range where it was found, or else the average.
pub fn range_end(end: Wide, average: Wide) -> (r: Wide)
    ensures
        r == (if end.finite() {
            end
        } else {
            average
        }),
{
    if end.is_finite() {
        end
    } else {
        average
    }
}

/// What the profile of the input does with a block.
#[derive(Clone, Copy, Debug, PartialEq, Eq, Structural)]
pub enum ListenStep {
    /// It is taken over this many samples so far.
    Measured(u64),
    /// It was taken and is cleared.
    Cleared,
    /// It is not taken.
    Idle,
}

/// Whether the automatic gain follows the powers of a block; else it is one.
pub fn follows_power(auto_gain: bool, samples: usize, power_in: Level, power_out: Level) -> (r: bool)
    ensures
        r == (auto_gain && samples > 0 && power_out.above(Level { bits: POWER_FLOOR_BITS })
            && power_in.above(Level { bits: POWER_FLOOR_BITS })),
{
    auto_gain && samples > 0 && power_out.gt(Level { bits: POWER_FLOOR_BITS }) && power_in.gt(
        Level { bits: POWER_FLOOR_BITS },
    )
}

impl AutoLoud {
    /// The state once a measurement that was asked for has begun.
    pub open spec fn begun(self) -> AutoLoud {
        if self.trigger {
            AutoLoud { trigger: false, measuring: true }
        } else {
            self
        }
    }

    /// Begins a measurement where one was asked for; true where both meters start again.
    pub fn begin(&mut self) -> (reset_meters: bool)
        ensures
            reset_meters == old(self).trigger,
            *final(self) == old(self).begun(),
    {
        if self.trigger {
            self.trigger = false;
            self.measuring = true;
            true
        } else {
            false
        }
    }

    /// Ends the measurement once enough samples were measured; true where it is over.
    ///
    /// `was_measuring` tells whether the block was measured, `measured` how many samples were.
    pub fn finish(&mut self, was_measuring: bool, measured: u64, target: u64) -> (over: bool)
        ensures
            over == (was_measuring && measured >= target),
            *final(self) == (if over {
                AutoLoud { measuring: false, ..*old(self) }
            } else {
                *old(self)
            }),
    {
        if was_measuring && measured >= target {
            self.measuring = false;
            true
        } else {
            false
        }
    }
}

/// What the pre-master stage does with a block.
#[derive(Clone, Copy, Debug, PartialEq, Eq, Structural)]
pub enum PreMasterStep {
    /// It is switched off.
    Off,
    /// The gain it has is applied.
    Apply,
    /// Its gain is to be computed from the peak measured, and applied.
    FindGain(Level),
}

/// A gain of one.
pub open spec fn unity() -> Level {
    Level { bits: ONE_BITS }
}

impl PreMaster {
    /// The stage once it is switched on: what was measured before is forgotten.
    pub open spec fn switched_on(self) -> PreMaster {
        if self.active_prev {
            self
        } else {
            PreMaster {
                gain: unity(),
                active_prev: true,
                measure_peak: Level { bits: 0 },
                measure_count: 0,
            }
        }
    }

    /// The stage once a block was measured, as long as that is needed.
    pub open spec fn measured(self, measure_samples: u32, block_peak: Level, n: u32) -> PreMaster {
        if self.measure_count < measure_samples {
            PreMaster {
                measure_peak: self.measure_peak.larger(block_peak),
                measure_count: (self.measure_count + n) as u32,
                ..self
            }
        } else {
            self
        }
    }

    /// Whether the gain is to be found: enough was measured, and it is still one.
    pub open spec fn ready(self, measure_samples: u32) -> bool {
        self.measure_count >= measure_samples && self.gain.same(unity())
    }

    /// The stage and what it does, after a block.
    pub open spec fn stepped(
        self,
        active: bool,
        measure_samples: u32,
        block_peak: Level,
        n: u32,
        gate: Level,
    ) -> (PreMaster, PreMasterStep) {
        if !active {
            (PreMaster { gain: unity(), active_prev: false, ..self }, PreMasterStep::Off)
        } else {
            let now = self.switched_on().measured(measure_samples, block_peak, n);
            if now.ready(measure_samples) {
                if now.measure_peak.above(gate) {
                    (now, PreMasterStep::FindGain(now.measure_peak))
                } else {
                    (
                        PreMaster { measure_count: 0, measure_peak: Level { bits: 0 }, ..now },
                        PreMasterStep::Apply,
                    )
                }
            } else {
                (now, PreMasterStep::Apply)
            }
        }
    }

    /// A stage that is switched off.
    pub fn new() -> (r: PreMaster)
        ensures
            r == (PreMaster {
                gain: unity(),
                active_prev: false,
                measure_peak: Level { bits: 0 },
                measure_count: 0,
            }),
    {
        PreMaster {
            gain: Level { bits: ONE_BITS },
            active_prev: false,
            measure_peak: Level { bits: 0 },
            measure_count: 0,
        }
    }

    /// Takes in a block of `n` samples with the given peak; `gate` is the peak from which the
    /// signal counts.
    pub fn step(
        &mut self,
        active: bool,
        measure_samples: u32,
        block_peak: Level,
        n: u32,
        gate: Level,
    ) -> (r: PreMasterStep)
        requires
            active && old(self).switched_on().measure_count < measure_samples ==> old(
                self,
            ).switched_on().measure_count + n <= u32::MAX,
        ensures
            (*final(self), r) == old(self).stepped(active, measure_samples, block_peak, n, gate),
    {
        if !active {
            self.gain = Level { bits: ONE_BITS };
            self.active_prev = false;
            return PreMasterStep::Off;
        }
        if !self.active_prev {
            self.measure_peak = Level { bits: 0 };
            self.measure_count = 0;
            self.gain = Level { bits: ONE_BITS };
            self.active_prev = true;
        }
        if self.measure_count < measure_samples {
            self.measure_peak = self.measure_peak.max(block_peak);
            self.measure_count = self.measure_count + n;
        }
        if self.measure_count >= measure_samples && self.gain.equals(Level { bits: ONE_BITS }) {
            if self.measure_peak.gt(gate) {
                return PreMasterStep::FindGain(self.measure_peak);
            }
            self.measure_count = 0;
            self.measure_peak = Level { bits: 0 };
        }
        PreMasterStep::Apply
    }

    /// Takes the gain that was computed.
    pub fn set_gain(&mut self, gain: Level)
        ensures
            *final(self) == (PreMaster { gain, ..*old(self) }),
    {
        self.gain = gain;
    }
}

/// Once a gain other than one is found, it stays until the stage is switched off.
pub proof fn law_pre_master_gain_stays(
    p: PreMaster,
    measure_samples: u32,
    block_peak: Level,
    n: u32,
    gate: Level,
)
    requires
        p.active_prev,
        !p.gain.same(unity()),
    ensures
        p.stepped(true, measure_samples, block_peak, n, gate).0.gain == p.gain,
        p.stepped(true, measure_samples, block_peak, n, gate).1 == PreMasterStep::Apply,
{
}

/// A stage that was switched off measures from the start when it is switched on again.
pub proof fn law_pre_master_starts_afresh(
    p: PreMaster,
    measure_samples: u32,
    block_peak: Level,
    n: u32,
    gate: Level,
)
    ensures
        ({
            let off = p.stepped(false, measure_samples, block_peak, n, gate).0;
            off.switched_on() == PreMaster {
                gain: unity(),
                active_prev: true,
                measure_peak: Level { bits: 0 },
                measure_count: 0,
            }
        }),
{
}

/// The gain of the pre-master stage is found only from a signal over the threshold.
pub proof fn law_pre_master_needs_a_signal(
    p: PreMaster,
    active: bool,
    measure_samples: u32,
    block_peak: Level,
    n: u32,
    gate: Level,
)
    ensures
        match p.stepped(active, measure_samples, block_peak, n, gate).1 {
            PreMasterStep::FindGain(peak) => active && peak.above(gate),
            _ => true,
        },
{
}

/// With no band soloed all bands are heard, else exactly the soloed ones.
pub proof fn law_solo(solo: Seq<bool>, b: int)
    requires
        solo.len() == 5,
        0 <= b < 5,
    ensures
        (forall|k: int| 0 <= k < 5 ==> !#[trigger] solo[k]) ==> band_heard(solo, b),
        (exists|k: int| 0 <= k < 5 && #[trigger] solo[k]) ==> band_heard(solo, b) == solo[b],
{
}

impl Equilibrium {
    /// Equilibrium before its first block.
    pub fn new() -> (r: Equilibrium)
        ensures
            r.cached_mono_floor_freq == (Level { bits: UNSEEN_BITS }),
            r.cached_sample_rate == (Level { bits: UNSEEN_BITS }),
            r.holds == (PeakHolds {
                value: Level { bits: SILENCE_BITS },
                left: Level { bits: SILENCE_BITS },
                right: Level { bits: SILENCE_BITS },
            }),
            r.listen_sample_count == 0,
            r.auto_loud == (AutoLoud { trigger: false, measuring: false }),
            r.pre_master == (PreMaster {
                gain: unity(),
                active_prev: false,
                measure_peak: Level { bits: 0 },
                measure_count: 0,
            }),
            r.snap == (SnapState { phase: 0, active: false }),
    {
        Equilibrium {
            cached_mono_floor_freq: Level { bits: UNSEEN_BITS },
            cached_sample_rate: Level { bits: UNSEEN_BITS },
            holds: PeakHolds::new(Level::silence()),
            listen_sample_count: 0,
            auto_loud: AutoLoud { trigger: false, measuring: false },
            pre_master: PreMaster::new(),
            snap: SnapState { phase: 0, active: false },
        }
    }

    /// Starts at a sample rate: gives how the filters are set.
    pub fn reset(&mut self, sample_rate: Level, mono_floor: Level) -> (r: Tuning)
        ensures
            tuned(r, sample_rate, mono_floor),
            *final(self) == (Equilibrium {
                cached_sample_rate: sample_rate,
                cached_mono_floor_freq: if mono_floor.above(unity()) {
                    mono_floor
                } else {
                    old(self).cached_mono_floor_freq
                },
                ..*old(self)
            }),
    {
        self.cached_sample_rate = sample_rate;
        let floor_on: bool = mono_floor.gt(Level { bits: ONE_BITS });
        if floor_on {
            self.cached_mono_floor_freq = mono_floor;
        }
        let r: Tuning = Tuning {
            sample_rate,
            low_cut: Level { bits: LOW_CUT_BITS },
            high_cut: if sample_rate.ge(Level { bits: HIGH_RATE_BITS }) {
                Some(Level { bits: HIGH_CUT_BITS })
            } else {
                None
            },
            crossovers: [
                Level { bits: CROSSOVER_LOW_BITS },
                Level { bits: CROSSOVER_BASS_BITS },
                Level { bits: CROSSOVER_MID_BITS },
                Level { bits: CROSSOVER_HIGH_BITS },
            ],
            mono_floor: if floor_on {
                Some(mono_floor)
            } else {
                None
            },
        };
        proof {
            assert(r.crossovers@ =~= seq![
                Level { bits: CROSSOVER_LOW_BITS },
                Level { bits: CROSSOVER_BASS_BITS },
                Level { bits: CROSSOVER_MID_BITS },
                Level { bits: CROSSOVER_HIGH_BITS },
            ]);
        }
        r
    }

    /// Starts a block: what is to be computed for it.
    pub fn begin_block(&mut self, c: &Controls) -> (plan: BlockPlan)
        ensures
            ({
                let dirty = !c.sample_rate.same(old(self).cached_sample_rate);
                let floor_on = c.mono_floor.above(unity());
                let retune = (!c.mono_floor.same(old(self).cached_mono_floor_freq) || dirty)
                    && floor_on;
                &&& plan.retune_mono_floor == retune
                &&& plan.mono_floor_on == floor_on
                &&& plan.high_cut == c.sample_rate.at_least(Level { bits: HIGH_RATE_BITS })
                &&& plan.reset_analysis == c.reset_analysis
                &&& forall|b: int| 0 <= b < 5 ==> #[trigger] plan.audible@[b] == band_heard(c.solo@, b)
                &&& plan.mono == old(self).snap.plays_mono(c.mono)
                &&& plan.delta == old(self).snap.plays_delta(c.delta)
                &&& plan.bypass == c.bypass
                &&& plan.listen == c.listen
                &&& plan.auto_gain == c.auto_gain
                &&& plan.measuring == old(self).auto_loud.measuring
                &&& *final(self) == (Equilibrium {
                    cached_sample_rate: if dirty {
                        c.sample_rate
                    } else {
                        old(self).cached_sample_rate
                    },
                    cached_mono_floor_freq: if retune {
                        c.mono_floor
                    } else {
                        old(self).cached_mono_floor_freq
                    },
                    holds: if c.reset_peak {
                        PeakHolds {
                            value: Level { bits: SILENCE_BITS },
                            left: Level { bits: SILENCE_BITS },
                            right: Level { bits: SILENCE_BITS },
                        }
                    } else {
                        old(self).holds
                    },
                    listen_sample_count: if c.reset_analysis {
                        0
                    } else {
                        old(self).listen_sample_count
                    },
                    ..*old(self)
                })
            }),
    {
        let dirty: bool = !c.sample_rate.equals(self.cached_sample_rate);
        if dirty {
            self.cached_sample_rate = c.sample_rate;
        }
        let mono_floor_on: bool = c.mono_floor.gt(Level { bits: ONE_BITS });
        let retune_mono_floor: bool = (!c.mono_floor.equals(self.cached_mono_floor_freq) || dirty)
            && mono_floor_on;
        if retune_mono_floor {
            self.cached_mono_floor_freq = c.mono_floor;
        }
        if c.reset_peak {
            self.holds = PeakHolds::new(Level::silence());
        }
        if c.reset_analysis {
            self.listen_sample_count = 0;
        }
        BlockPlan {
            retune_mono_floor,
            mono_floor_on,
            high_cut: c.sample_rate.ge(Level { bits: HIGH_RATE_BITS }),
            reset_analysis: c.reset_analysis,
            audible: audible_bands(&c.solo),
            mono: self.snap.mono(c.mono),
            delta: self.snap.delta(c.delta),
            bypass: c.bypass,
            listen: c.listen,
            auto_gain: c.auto_gain,
            measuring: self.auto_loud.measuring,
        }
    }

    /// Takes the complete spectrum of the capture's phase: gives which one it is, and whether
    /// the capture goes on and averages afresh.
    pub fn snap_captured(&mut self) -> (r: (SnapMode, bool))
        ensures
            r.0 == mode_of(old(self).snap.phase),
            r.1 == (phase_after(old(self).snap.phase) != 0),
            *final(self) == (Equilibrium {
                snap: old(self).snap.after_capture(),
                ..*old(self)
            }),
    {
        let mode: SnapMode = self.snap.captured();
        (mode, self.snap.phase != 0)
    }

    /// What the profile of the input does with a block of samples.
    pub fn listen_step(&mut self, listen: bool, samples: usize) -> (r: ListenStep)
        requires
            old(self).listen_sample_count + samples <= u64::MAX,
        ensures
            r == (if listen {
                ListenStep::Measured((old(self).listen_sample_count + samples) as u64)
            } else if old(self).listen_sample_count > 0 {
                ListenStep::Cleared
            } else {
                ListenStep::Idle
            }),
            *final(self) == (Equilibrium {
                listen_sample_count: if listen {
                    (old(self).listen_sample_count + samples) as u64
                } else {
                    0
                },
                ..*old(self)
            }),
    {
        if listen {
            self.listen_sample_count = self.listen_sample_count + samples as u64;
            ListenStep::Measured(self.listen_sample_count)
        } else if self.listen_sample_count > 0 {
            self.listen_sample_count = 0;
            ListenStep::Cleared
        } else {
            ListenStep::Idle
        }
    }

    /// Takes in the peaks of a block.
    pub fn hold_peaks(&mut self, value: Level, left: Level, right: Level)
        ensures
            *final(self) == (Equilibrium {
                holds: old(self).holds.after_block(value, left, right),
                ..*old(self)
            }),
    {
        self.holds.update(value, left, right);
    }
}

} // verus!
