//! The pre-master stage over blocks: it measures for a while, finds one gain, and keeps it.

use crate::equilibrium::{unity, PreMaster, PreMasterStep};
use crate::equilibrium_chain::pre_master_gain;
use crate::hold::{block_peaks, loudest_of_both, PeakHolds};
use crate::level::Level;
use vstd::prelude::*;

verus! {

/// The bit pattern of `-50.0`: in dB, the peak that a signal must exceed.
pub const SIGNAL_DB_BITS: u32 = 0xc248_0000;

/// The bit pattern of `-24.0`, the most that is cut, in dB.
pub const MAX_CUT_DB_BITS: u32 = 0xc1c0_0000;

/// The bit pattern of `12.0`, the most that is boosted, in dB.
pub const MAX_BOOST_DB_BITS: u32 = 0x4140_0000;

/// What the stage works with, as factors.
#[derive(Clone, Copy, Debug, PartialEq, Eq, Structural)]
pub struct MasterLevels {
    /// The peak that is aimed at.
    pub target: Level,
    /// The peak that a signal must exceed.
    pub gate: Level,
    pub max_cut: Level,
    pub max_boost: Level,
}

/// Whether levels are those for a target in dB; `linear` turns dB into a factor.
pub open spec fn levels_for<L: Fn(Level) -> Level>(
    linear: L,
    target_db: Level,
    m: MasterLevels,
) -> bool {
    &&& call_ensures(linear, (target_db,), m.target)
    &&& call_ensures(linear, (Level { bits: SIGNAL_DB_BITS },), m.gate)
    &&& call_ensures(linear, (Level { bits: MAX_CUT_DB_BITS },), m.max_cut)
    &&& call_ensures(linear, (Level { bits: MAX_BOOST_DB_BITS },), m.max_boost)
}

/// The levels for a target in dB.
pub fn master_levels<L: Fn(Level) -> Level>(target_db: Level, linear: L) -> (r: MasterLevels)
    requires
        forall|db: Level| call_requires(linear, (db,)),
    ensures
        levels_for(linear, target_db, r),
{
    MasterLevels {
        target: linear(target_db),
        gate: linear(Level { bits: SIGNAL_DB_BITS }),
        max_cut: linear(Level { bits: MAX_CUT_DB_BITS }),
        max_boost: linear(Level { bits: MAX_BOOST_DB_BITS }),
    }
}

/// Whether every sample is scaled by a gain.
pub open spec fn scaled<S: Fn(Level, Level) -> Level>(
    scale: S,
    gain: Level,
    samples: Seq<Level>,
    r: Seq<Level>,
) -> bool {
    &&& r.len() == samples.len()
    &&& forall|i: int| 0 <= i < r.len() ==> call_ensures(scale, (samples[i], gain), #[trigger] r[i])
}

/// The samples, each scaled by a gain.
fn scale_all<S: Fn(Level, Level) -> Level>(scale: &S, gain: Level, samples: &Vec<Level>) -> (r: Vec<
    Level,
>)
    requires
        forall|x: Level, g: Level| call_requires(*scale, (x, g)),
    ensures
        scaled(*scale, gain, samples@, r@),
{
    let mut r: Vec<Level> = Vec::new();
    for i in 0..samples.len()
        invariant
            forall|x: Level, g: Level| call_requires(*scale, (x, g)),
            r@.len() == i,
            forall|k: int|
                0 <= k < i ==> call_ensures(*scale, (samples@[k], gain), #[trigger] r@[k]),
    {
        r.push(scale(samples[i], gain));
    }
    r
}

/// A block of both channels.
pub struct StereoBlock {
    pub left: Vec<Level>,
    pub right: Vec<Level>,
}

/// A gain held between the most that is cut and the most that is boosted.
pub open spec fn held_ratio(ratio: Level, m: MasterLevels) -> Level {
    ratio.clamped(m.max_cut, m.max_boost)
}

/// Whether the gain for a peak is the target over it, held between its ends; `divide` divides.
pub open spec fn gain_for<D: Fn(Level, Level) -> Level>(
    divide: D,
    m: MasterLevels,
    peak: Level,
    gain: Level,
) -> bool {
    exists|ratio: Level|
        #![trigger held_ratio(ratio, m)]
        call_ensures(divide, (m.target, peak), ratio) && gain == held_ratio(ratio, m)
}

/// Whether a block leads from one stage to the other and leaves as `r`.
pub open spec fn mastered<D: Fn(Level, Level) -> Level, S: Fn(Level, Level) -> Level>(
    divide: D,
    scale: S,
    before: PreMaster,
    active: bool,
    measure_samples: u32,
    m: MasterLevels,
    block: StereoBlock,
    after: PreMaster,
    r: StereoBlock,
) -> bool {
    let (next, step) = before.stepped(
        active,
        measure_samples,
        loudest_of_both(block.left@, block.right@, block.left@.len()),
        block.left@.len() as u32,
        m.gate,
    );
    &&& match step {
        PreMasterStep::FindGain(peak) => after == (PreMaster { gain: after.gain, ..next })
            && gain_for(divide, m, peak, after.gain),
        _ => after == next,
    }
    &&& if active {
        &&& scaled(scale, after.gain, block.left@, r.left@)
        &&& scaled(scale, after.gain, block.right@, r.right@)
    } else {
        r.left@ == block.left@ && r.right@ == block.right@
    }
}

impl PreMaster {
    /// Takes in a block and gives it with the gain of the stage applied.
    ///
    /// `divide` divides its first argument by its second, `scale` multiplies a sample by a gain.
    pub fn master_block<D: Fn(Level, Level) -> Level, S: Fn(Level, Level) -> Level>(
        &mut self,
        active: bool,
        measure_samples: u32,
        m: &MasterLevels,
        block: StereoBlock,
        divide: &D,
        scale: &S,
    ) -> (r: StereoBlock)
        requires
            block.left@.len() == block.right@.len(),
            active && old(self).switched_on().measure_count < measure_samples ==> old(
                self,
            ).switched_on().measure_count + (block.left@.len() as u32) <= u32::MAX,
            m.max_boost.at_least(m.max_cut),
            forall|a: Level, b: Level| call_requires(*divide, (a, b)),
            forall|x: Level, g: Level| call_requires(*scale, (x, g)),
        ensures
            mastered(
                *divide,
                *scale,
                *old(self),
                active,
                measure_samples,
                *m,
                block,
                *final(self),
                r,
            ),
    {
        let peaks: PeakHolds = block_peaks(&block.left, &block.right);
        let n: u32 = block.left.len() as u32;
        match self.step(active, measure_samples, peaks.value, n, m.gate) {
            PreMasterStep::Off => {
                return block;
            },
            PreMasterStep::Apply => {},
            PreMasterStep::FindGain(peak) => {
                let ratio: Level = divide(m.target, peak);
                let gain: Level = pre_master_gain(ratio, m.max_cut, m.max_boost);
                proof {
                    assert(gain == held_ratio(ratio, *m));
                }
                self.set_gain(gain);
            },
        }
        StereoBlock {
            left: scale_all(scale, self.gain, &block.left),
            right: scale_all(scale, self.gain, &block.right),
        }
    }
}

/// How many samples the first `n` blocks hold.
pub open spec fn samples_in(blocks: Seq<StereoBlock>, n: nat) -> nat
    decreases n,
{
    if n == 0 {
        0
    } else {
        samples_in(blocks, (n - 1) as nat) + blocks[n - 1].left@.len()
    }
}

/// The largest magnitude in the first `n` blocks.
pub open spec fn peak_in(blocks: Seq<StereoBlock>, n: nat) -> Level
    decreases n,
{
    if n == 0 {
        Level { bits: 0 }
    } else {
        let b = blocks[n - 1];
        peak_in(blocks, (n - 1) as nat).larger(loudest_of_both(b.left@, b.right@, b.left@.len()))
    }
}

/// Whether the stages follow each other by the blocks, switched on with the first of them.
pub open spec fn mastered_run<D: Fn(Level, Level) -> Level, S: Fn(Level, Level) -> Level>(
    divide: D,
    scale: S,
    states: Seq<PreMaster>,
    measure_samples: u32,
    m: MasterLevels,
    blocks: Seq<StereoBlock>,
    out: Seq<StereoBlock>,
) -> bool {
    &&& states.len() == blocks.len() + 1
    &&& out.len() == blocks.len()
    &&& !states[0].active_prev
    &&& forall|i: int|
        0 <= i < blocks.len() ==> #[trigger] mastered(
            divide,
            scale,
            states[i],
            true,
            measure_samples,
            m,
            blocks[i],
            states[i + 1],
            out[i],
        )
}

proof fn lemma_measuring<D: Fn(Level, Level) -> Level, S: Fn(Level, Level) -> Level>(
    divide: D,
    scale: S,
    states: Seq<PreMaster>,
    measure_samples: u32,
    m: MasterLevels,
    blocks: Seq<StereoBlock>,
    out: Seq<StereoBlock>,
    k: int,
)
    requires
        mastered_run(divide, scale, states, measure_samples, m, blocks, out),
        0 <= k <= blocks.len(),
        samples_in(blocks, k as nat) < measure_samples,
    ensures
        states[k].switched_on() == (PreMaster {
            gain: unity(),
            active_prev: true,
            measure_peak: peak_in(blocks, k as nat),
            measure_count: samples_in(blocks, k as nat) as u32,
        }),
        k > 0 ==> states[k] == states[k].switched_on(),
    decreases k,
{
    if k > 0 {
        lemma_measuring(divide, scale, states, measure_samples, m, blocks, out, k - 1);
        assert(mastered(
            divide,
            scale,
            states[k - 1],
            true,
            measure_samples,
            m,
            blocks[k - 1],
            states[k - 1 + 1],
            out[k - 1],
        ));
    }
}

/// The stage measures from the block that it is switched on with until it has seen the samples it
/// asks for.  Up to there the blocks leave with a gain of one; the block that completes the
/// measurement leaves with the target over the largest magnitude of all of them, held between the
/// most that is cut and the most that is boosted, as the gain of what leaves while the stage is
/// switched off.
pub proof fn law_the_measured_peak_sets_the_gain<
    D: Fn(Level, Level) -> Level,
    S: Fn(Level, Level) -> Level,
>(
    divide: D,
    scale: S,
    states: Seq<PreMaster>,
    measure_samples: u32,
    m: MasterLevels,
    blocks: Seq<StereoBlock>,
    out: Seq<StereoBlock>,
    k: int,
)
    requires
        mastered_run(divide, scale, states, measure_samples, m, blocks, out),
        0 <= k < blocks.len(),
        samples_in(blocks, k as nat) < measure_samples <= samples_in(blocks, (k + 1) as nat),
        samples_in(blocks, (k + 1) as nat) <= u32::MAX,
        peak_in(blocks, (k + 1) as nat).above(m.gate),
    ensures
        forall|i: int|
            0 <= i < k ==> {
                &&& scaled(scale, unity(), blocks[i].left@, (#[trigger] out[i]).left@)
                &&& scaled(scale, unity(), blocks[i].right@, out[i].right@)
            },
        gain_for(divide, m, peak_in(blocks, (k + 1) as nat), states[k + 1].gain),
        scaled(scale, states[k + 1].gain, blocks[k].left@, out[k].left@),
        scaled(scale, states[k + 1].gain, blocks[k].right@, out[k].right@),
        forall|before: PreMaster, after: PreMaster, off: StereoBlock| #[trigger]
            mastered(divide, scale, before, false, measure_samples, m, blocks[k], after, off) ==> {
                &&& scaled(scale, states[k + 1].gain, off.left@, out[k].left@)
                &&& scaled(scale, states[k + 1].gain, off.right@, out[k].right@)
            },
{
    assert forall|i: int| 0 <= i < k implies {
        &&& scaled(scale, unity(), blocks[i].left@, (#[trigger] out[i]).left@)
        &&& scaled(scale, unity(), blocks[i].right@, out[i].right@)
    } by {
        lemma_samples_grow(blocks, (i + 1) as nat, k as nat);
        lemma_measuring(divide, scale, states, measure_samples, m, blocks, out, i + 1);
        assert(mastered(
            divide,
            scale,
            states[i],
            true,
            measure_samples,
            m,
            blocks[i],
            states[i + 1],
            out[i],
        ));
    }
    lemma_measuring(divide, scale, states, measure_samples, m, blocks, out, k);
    assert(mastered(
        divide,
        scale,
        states[k],
        true,
        measure_samples,
        m,
        blocks[k],
        states[k + 1],
        out[k],
    ));
    assert(unity().same(unity()));
}

proof fn lemma_samples_grow(blocks: Seq<StereoBlock>, i: nat, k: nat)
    requires
        i <= k,
    ensures
        samples_in(blocks, i) <= samples_in(blocks, k),
    decreases k,
{
    if i < k {
        lemma_samples_grow(blocks, i, (k - 1) as nat);
    }
}

} // verus!
