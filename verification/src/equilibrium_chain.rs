//! The signal chain of Equilibrium: in which order a sample passes its stages, and what the stages
//! decide.

use crate::equilibrium::{
    follows_power, range_move, unity, BlockPlan, RangeMove, ONE_BITS, POWER_FLOOR_BITS,
};
use crate::level::{Level, SILENCE_BITS};
use crate::scope::Frame;
use crate::wide::Wide;
use vstd::prelude::*;

verus! {

/// The bit pattern of `-1.0`.
pub const MINUS_ONE_BITS: u32 = 0xbf80_0000;

/// The bit pattern of `1e-6`: a sum of levels up to it has no balance.
pub const BALANCE_FLOOR_BITS: u32 = 0x3586_37bd;

/// The bit pattern of `1e-5`: an envelope up to it is not shown.
pub const ENVELOPE_FLOOR_BITS: u32 = 0x3727_c5ac;

/// The bit pattern of `20.0`, the most by which the scope enlarges.
pub const SCOPE_GAIN_BITS: u32 = 0x41a0_0000;

/// The bit pattern of `0.001`: a pan law up to it is not normalised.
pub const PAN_FLOOR_BITS: u32 = 0x3a83_126f;

/// The bit pattern of `-24.0`, the most by which the loudness is lowered.
pub const LOUD_MIN_BITS: u32 = 0xc1c0_0000;

/// The bits of positive infinity in double precision.
pub const WIDE_TOP_BITS: u64 = 0x7ff0_0000_0000_0000;

/// The bits of negative infinity in double precision.
pub const WIDE_BOTTOM_BITS: u64 = 0xfff0_0000_0000_0000;

/// A stage that a sample passes.
#[derive(Clone, Copy, Debug, PartialEq, Eq, Structural)]
pub enum Stage {
    LowCut,
    HighCut,
    Crossover,
    BandGain(usize),
    BandWidth(usize),
    BandPan(usize),
    /// The band is not heard.
    BandMute(usize),
    Sum,
    MonoFloor,
    Mono,
    Delta,
    OutputGain,
    AutoGain,
    Clamp,
}

/// The stages of the first `n` bands: gain, width, pan, and silence where the band is not heard.
pub open spec fn band_stages(audible: Seq<bool>, n: nat) -> Seq<Stage>
    decreases n,
{
    if n == 0 {
        Seq::empty()
    } else {
        let b = (n - 1) as usize;
        let on = band_stages(audible, (n - 1) as nat).push(Stage::BandGain(b)).push(
            Stage::BandWidth(b),
        ).push(Stage::BandPan(b));
        if audible[n - 1] {
            on
        } else {
            on.push(Stage::BandMute(b))
        }
    }
}

/// One stage where it is switched on.
pub open spec fn stage_if(on: bool, stage: Stage) -> Seq<Stage> {
    if on {
        seq![stage]
    } else {
        Seq::empty()
    }
}

/// The stages in front of the bands.
pub open spec fn head_stages(p: BlockPlan) -> Seq<Stage> {
    seq![Stage::LowCut] + stage_if(p.high_cut, Stage::HighCut) + seq![Stage::Crossover]
}

/// The stages behind the bands.
pub open spec fn tail_stages(p: BlockPlan) -> Seq<Stage> {
    seq![Stage::Sum] + stage_if(p.mono_floor_on, Stage::MonoFloor) + stage_if(p.mono, Stage::Mono)
        + stage_if(p.delta, Stage::Delta) + seq![Stage::OutputGain] + stage_if(
        p.auto_gain,
        Stage::AutoGain,
    ) + seq![Stage::Clamp]
}

/// The stages that a sample passes, in order.
pub open spec fn stages(p: BlockPlan) -> Seq<Stage> {
    head_stages(p) + band_stages(p.audible@, 5) + tail_stages(p)
}

fn push_stage(list: &mut Vec<Stage>, on: bool, stage: Stage)
    ensures
        final(list)@ == old(list)@ + stage_if(on, stage),
{
    if on {
        list.push(stage);
    }
    proof {
        assert(list@ =~= old(list)@ + stage_if(on, stage));
    }
}

/// Two stages, each where it is switched on.
fn push_stages(list: &mut Vec<Stage>, first: (bool, Stage), second: (bool, Stage))
    ensures
        final(list)@ == old(list)@ + (stage_if(first.0, first.1) + stage_if(second.0, second.1)),
{
    push_stage(list, first.0, first.1);
    push_stage(list, second.0, second.1);
    proof {
        assert(list@ =~= old(list)@ + (stage_if(first.0, first.1) + stage_if(second.0, second.1)));
    }
}

proof fn lemma_tail_pairs(p: BlockPlan, base: Seq<Stage>)
    ensures
        base + (stage_if(true, Stage::Sum) + stage_if(p.mono_floor_on, Stage::MonoFloor)) + (
        stage_if(p.mono, Stage::Mono) + stage_if(p.delta, Stage::Delta)) + (stage_if(
            true,
            Stage::OutputGain,
        ) + stage_if(p.auto_gain, Stage::AutoGain)) + stage_if(true, Stage::Clamp) == base
            + tail_stages(p),
{
    let a = stage_if(true, Stage::Sum);
    let b = stage_if(p.mono_floor_on, Stage::MonoFloor);
    let c = stage_if(p.mono, Stage::Mono);
    let d = stage_if(p.delta, Stage::Delta);
    let e = stage_if(true, Stage::OutputGain);
    let f = stage_if(p.auto_gain, Stage::AutoGain);
    let g = stage_if(true, Stage::Clamp);
    assert(tail_stages(p) == a + b + c + d + e + f + g);
    assert(base + (a + b) =~= base + a + b);
    assert(base + a + b + (c + d) =~= base + a + b + c + d);
    assert(base + a + b + c + d + (e + f) =~= base + a + b + c + d + e + f);
    lemma_regroup(base, a, b, c, d, e, f, g);
}

proof fn lemma_regroup(
    base: Seq<Stage>,
    a: Seq<Stage>,
    b: Seq<Stage>,
    c: Seq<Stage>,
    d: Seq<Stage>,
    e: Seq<Stage>,
    f: Seq<Stage>,
    g: Seq<Stage>,
)
    ensures
        base + a + b + c + d + e + f + g == base + (a + b + c + d + e + f + g),
{
    assert(base + a + b =~= base + (a + b));
    assert(base + (a + b) + c =~= base + (a + b + c));
    assert(base + (a + b + c) + d =~= base + (a + b + c + d));
    assert(base + (a + b + c + d) + e =~= base + (a + b + c + d + e));
    assert(base + (a + b + c + d + e) + f =~= base + (a + b + c + d + e + f));
    assert(base + (a + b + c + d + e + f) + g =~= base + (a + b + c + d + e + f + g));
}

/// Appends the stages of a band.
fn push_band(list: &mut Vec<Stage>, audible: &[bool; 5], b: usize)
    requires
        b < 5,
    ensures
        final(list)@ == old(list)@.push(Stage::BandGain(b)).push(Stage::BandWidth(b)).push(
            Stage::BandPan(b),
        ) + stage_if(!audible@[b as int], Stage::BandMute(b)),
{
    list.push(Stage::BandGain(b));
    list.push(Stage::BandWidth(b));
    list.push(Stage::BandPan(b));
    push_stage(list, !audible[b], Stage::BandMute(b));
}

/// The stages that a sample of the block passes, in order.
pub fn sample_stages(p: &BlockPlan) -> (r: Vec<Stage>)
    ensures
        r@ == stages(*p),
{
    let mut r: Vec<Stage> = Vec::new();
    push_stages(&mut r, (true, Stage::LowCut), (p.high_cut, Stage::HighCut));
    push_stage(&mut r, true, Stage::Crossover);
    let ghost head = head_stages(*p);
    proof {
        assert(r@ =~= head);
        assert(r@ =~= head + band_stages(p.audible@, 0));
    }
    for b in 0..5usize
        invariant
            r@ == head + band_stages(p.audible@, b as nat),
    {
        let ghost before = band_stages(p.audible@, b as nat);
        push_band(&mut r, &p.audible, b);
        proof {
            let more = before.push(Stage::BandGain(b)).push(Stage::BandWidth(b)).push(
                Stage::BandPan(b),
            );
            assert((head + before).push(Stage::BandGain(b)).push(Stage::BandWidth(b)).push(
                Stage::BandPan(b),
            ) =~= head + more);
            assert(head + more + stage_if(!p.audible@[b as int], Stage::BandMute(b)) =~= head + (more
                + stage_if(!p.audible@[b as int], Stage::BandMute(b))));
            assert(band_stages(p.audible@, b as nat + 1) =~= more + stage_if(
                !p.audible@[b as int],
                Stage::BandMute(b),
            ));
        }
    }
    let ghost so_far = r@;
    push_stages(&mut r, (true, Stage::Sum), (p.mono_floor_on, Stage::MonoFloor));
    push_stages(&mut r, (p.mono, Stage::Mono), (p.delta, Stage::Delta));
    push_stages(&mut r, (true, Stage::OutputGain), (p.auto_gain, Stage::AutoGain));
    push_stage(&mut r, true, Stage::Clamp);
    proof {
        lemma_tail_pairs(*p, so_far);
    }
    r
}

/// The place of a stage in the order that every sample keeps to.
pub open spec fn stage_rank(s: Stage) -> int {
    match s {
        Stage::LowCut => 0,
        Stage::HighCut => 1,
        Stage::Crossover => 2,
        Stage::BandGain(b) => 10 + 4 * b,
        Stage::BandWidth(b) => 11 + 4 * b,
        Stage::BandPan(b) => 12 + 4 * b,
        Stage::BandMute(b) => 13 + 4 * b,
        Stage::Sum => 100,
        Stage::MonoFloor => 101,
        Stage::Mono => 102,
        Stage::Delta => 103,
        Stage::OutputGain => 104,
        Stage::AutoGain => 105,
        Stage::Clamp => 106,
    }
}

/// The stages keep to their order, and lie between two places of it.
pub open spec fn in_order(s: Seq<Stage>, lo: int, hi: int) -> bool {
    &&& forall|i: int| 0 <= i < s.len() ==> lo <= stage_rank(#[trigger] s[i]) < hi
    &&& forall|i: int, j: int|
        0 <= i < j < s.len() ==> stage_rank(#[trigger] s[i]) < stage_rank(#[trigger] s[j])
}

proof fn lemma_join(a: Seq<Stage>, b: Seq<Stage>, lo: int, mid: int, hi: int)
    requires
        in_order(a, lo, mid),
        in_order(b, mid, hi),
        lo <= mid <= hi,
    ensures
        in_order(a + b, lo, hi),
{
    let s = a + b;
    let m = a.len() as int;
    assert forall|i: int| 0 <= i < s.len() implies lo <= stage_rank(#[trigger] s[i]) < hi by {
        if i < m {
            assert(s[i] == a[i]);
        } else {
            assert(s[i] == b[i - m]);
        }
    }
    assert forall|i: int, j: int| 0 <= i < j < s.len() implies stage_rank(#[trigger] s[i])
        < stage_rank(#[trigger] s[j]) by {
        if i < m {
            assert(s[i] == a[i]);
        } else {
            assert(s[i] == b[i - m]);
        }
        if j < m {
            assert(s[j] == a[j]);
        } else {
            assert(s[j] == b[j - m]);
        }
    }
}

/// One stage behind others.
proof fn lemma_next(a: Seq<Stage>, on: bool, stage: Stage, lo: int)
    requires
        in_order(a, lo, stage_rank(stage)),
        lo <= stage_rank(stage),
    ensures
        in_order(a + stage_if(on, stage), lo, stage_rank(stage) + 1),
{
    lemma_join(a, stage_if(on, stage), lo, stage_rank(stage), stage_rank(stage) + 1);
}

proof fn lemma_band_order(audible: Seq<bool>, n: nat)
    requires
        n <= 5,
    ensures
        in_order(band_stages(audible, n), 10, 10 + 4 * (n as int)),
    decreases n,
{
    if n > 0 {
        let b = (n - 1) as usize;
        let s0 = band_stages(audible, (n - 1) as nat);
        lemma_band_order(audible, (n - 1) as nat);
        lemma_next(s0, true, Stage::BandGain(b), 10);
        let s1 = s0 + stage_if(true, Stage::BandGain(b));
        lemma_next(s1, true, Stage::BandWidth(b), 10);
        let s2 = s1 + stage_if(true, Stage::BandWidth(b));
        lemma_next(s2, true, Stage::BandPan(b), 10);
        let s3 = s2 + stage_if(true, Stage::BandPan(b));
        lemma_next(s3, !audible[n - 1], Stage::BandMute(b), 10);
        assert(band_stages(audible, n) =~= s3 + stage_if(!audible[n - 1], Stage::BandMute(b)));
    }
}

proof fn lemma_head_order(p: BlockPlan)
    ensures
        in_order(head_stages(p), 0, 10),
{
    let s0 = Seq::<Stage>::empty();
    lemma_next(s0, true, Stage::LowCut, 0);
    let s1 = s0 + stage_if(true, Stage::LowCut);
    lemma_next(s1, p.high_cut, Stage::HighCut, 0);
    let s2 = s1 + stage_if(p.high_cut, Stage::HighCut);
    lemma_next(s2, true, Stage::Crossover, 0);
    assert(head_stages(p) =~= s2 + stage_if(true, Stage::Crossover));
}

proof fn lemma_tail_order(p: BlockPlan)
    ensures
        in_order(tail_stages(p), 100, 107),
{
    let s0 = Seq::<Stage>::empty();
    lemma_next(s0, true, Stage::Sum, 100);
    let s1 = s0 + stage_if(true, Stage::Sum);
    lemma_next(s1, p.mono_floor_on, Stage::MonoFloor, 100);
    let s2 = s1 + stage_if(p.mono_floor_on, Stage::MonoFloor);
    lemma_next(s2, p.mono, Stage::Mono, 100);
    let s3 = s2 + stage_if(p.mono, Stage::Mono);
    lemma_next(s3, p.delta, Stage::Delta, 100);
    let s4 = s3 + stage_if(p.delta, Stage::Delta);
    lemma_next(s4, true, Stage::OutputGain, 100);
    let s5 = s4 + stage_if(true, Stage::OutputGain);
    lemma_next(s5, p.auto_gain, Stage::AutoGain, 100);
    let s6 = s5 + stage_if(p.auto_gain, Stage::AutoGain);
    lemma_next(s6, true, Stage::Clamp, 100);
    assert(tail_stages(p) =~= s6 + stage_if(true, Stage::Clamp));
}

/// The signal chain: low cut, high cut, crossover; in each band gain, width, pan and solo; then the
/// sum, the mono floor, mono, delta, the gain, the automatic gain and the clamp.  Every sample keeps
/// to that order, passes no stage twice, and is clamped last.
pub proof fn law_the_chain_keeps_its_order(p: BlockPlan)
    ensures
        in_order(stages(p), 0, 107),
        stages(p).len() > 0,
        stages(p).last() == Stage::Clamp,
        stages(p)[0] == Stage::LowCut,
{
    let h = head_stages(p);
    let b = band_stages(p.audible@, 5);
    let t = tail_stages(p);
    lemma_head_order(p);
    lemma_band_order(p.audible@, 5);
    lemma_tail_order(p);
    lemma_join(h, b, 0, 10, 100);
    lemma_join(h + b, t, 0, 100, 107);
    assert(t.last() == Stage::Clamp);
    assert(stages(p).last() == t.last());
    assert(stages(p)[0] == h[0]);
}

/// Both channels held between -1 and 1.
pub open spec fn clamped_frame(f: Frame) -> Frame {
    let lo = Level { bits: MINUS_ONE_BITS };
    let hi = Level { bits: ONE_BITS };
    (f.0.clamped(lo, hi), f.1.clamped(lo, hi))
}

/// Both channels held between -1 and 1.
pub fn clamp_frame(f: Frame) -> (r: Frame)
    ensures
        r == clamped_frame(f),
{
    let lo: Level = Level { bits: MINUS_ONE_BITS };
    let hi: Level = Level { bits: ONE_BITS };
    (f.0.clamp(lo, hi), f.1.clamp(lo, hi))
}

/// What leaves the chain never exceeds full scale.
pub proof fn law_the_output_stays_in_range(f: Frame)
    ensures
        !f.0.nan() ==> unity().at_least(clamped_frame(f).0.absolute()),
        !f.1.nan() ==> unity().at_least(clamped_frame(f).1.absolute()),
{
}

/// Whether the pan law of a band is normalised; `loudest` is the larger of its two gains.
pub fn normalises_pan(loudest: Level) -> (r: bool)
    ensures
        r == loudest.above(Level { bits: PAN_FLOOR_BITS }),
{
    loudest.gt(Level { bits: PAN_FLOOR_BITS })
}

/// The range of the power in a band, and the average that gates it.
#[derive(Clone, Copy, Debug, PartialEq, Eq, Structural)]
pub struct ListenRange {
    pub lo: Wide,
    pub hi: Wide,
    pub reference: Wide,
}

/// A range that holds nothing.
pub open spec fn empty_range() -> ListenRange {
    ListenRange {
        lo: Wide { bits: WIDE_TOP_BITS },
        hi: Wide { bits: WIDE_BOTTOM_BITS },
        reference: Wide { bits: 0 },
    }
}

/// Whether an end of a range moves from one value to the other: towards the power, by `fast` or by
/// `slow`.
pub open spec fn end_moved<F: Fn(Wide, Wide) -> Wide, S: Fn(Wide, Wide) -> Wide>(
    before: Wide,
    power: Wide,
    is_fast: bool,
    fast: F,
    slow: S,
    after: Wide,
) -> bool {
    if is_fast {
        call_ensures(fast, (before, power), after)
    } else {
        call_ensures(slow, (before, power), after)
    }
}

/// The move that a range makes for a power over or under a gate.
pub open spec fn move_of(power: Wide, gate: Wide, lo: Wide, hi: Wide) -> RangeMove {
    if !power.above(gate) {
        RangeMove::Hold
    } else if !lo.finite() {
        RangeMove::Start
    } else {
        RangeMove::Follow { lo_fast: lo.above(power), hi_fast: power.above(hi) }
    }
}

/// The float arithmetic of the listening: the average behind the threshold, the threshold, and
/// both speeds of a move.
pub struct ListenMath<
    A: Fn(Wide, Wide) -> Wide,
    G: Fn(Wide) -> Wide,
    F: Fn(Wide, Wide) -> Wide,
    S: Fn(Wide, Wide) -> Wide,
> {
    /// The next average from the power and the last average.
    pub average: A,
    /// The threshold at an average.
    pub gate: G,
    pub fast: F,
    pub slow: S,
}

impl ListenRange {
    /// A range that holds nothing.
    pub fn new() -> (r: ListenRange)
        ensures
            r == empty_range(),
    {
        ListenRange {
            lo: Wide { bits: WIDE_TOP_BITS },
            hi: Wide { bits: WIDE_BOTTOM_BITS },
            reference: Wide { bits: 0 },
        }
    }

    /// Whether a power leads from one range to the other.
    pub open spec fn listened<
        A: Fn(Wide, Wide) -> Wide,
        G: Fn(Wide) -> Wide,
        F: Fn(Wide, Wide) -> Wide,
        S: Fn(Wide, Wide) -> Wide,
    >(
        before: ListenRange,
        power: Wide,
        math: ListenMath<A, G, F, S>,
        after: ListenRange,
    ) -> bool {
        &&& call_ensures(math.average, (power, before.reference), after.reference)
        &&& exists|gate: Wide| #[trigger]
            call_ensures(math.gate, (after.reference,), gate) && match move_of(
                power,
                gate,
                before.lo,
                before.hi,
            ) {
                RangeMove::Hold => after.lo == before.lo && after.hi == before.hi,
                RangeMove::Start => after.lo == power && after.hi == power,
                RangeMove::Follow { lo_fast, hi_fast } => end_moved(
                    before.lo,
                    power,
                    lo_fast,
                    math.fast,
                    math.slow,
                    after.lo,
                ) && end_moved(before.hi, power, hi_fast, math.fast, math.slow, after.hi),
            }
    }

    /// Takes in the power of a block: below the threshold the range stays, the first power over it starts
    /// the range, and from then on both ends move towards the power, fast where it lies outside.
    pub fn listen<
        A: Fn(Wide, Wide) -> Wide,
        G: Fn(Wide) -> Wide,
        F: Fn(Wide, Wide) -> Wide,
        S: Fn(Wide, Wide) -> Wide,
    >(&mut self, power: Wide, math: &ListenMath<A, G, F, S>)
        requires
            forall|a: Wide, b: Wide| call_requires(math.average, (a, b)),
            forall|a: Wide| call_requires(math.gate, (a,)),
            forall|a: Wide, b: Wide| call_requires(math.fast, (a, b)),
            forall|a: Wide, b: Wide| call_requires(math.slow, (a, b)),
        ensures
            Self::listened(*old(self), power, *math, *final(self)),
    {
        let reference: Wide = (math.average)(power, self.reference);
        self.reference = reference;
        let gate: Wide = (math.gate)(reference);
        proof {
            assert(call_ensures(math.gate, (self.reference,), gate));
        }
        match range_move(power, gate, self.lo, self.hi) {
            RangeMove::Hold => {},
            RangeMove::Start => {
                self.lo = power;
                self.hi = power;
            },
            RangeMove::Follow { lo_fast, hi_fast } => {
                self.lo = if lo_fast {
                    (math.fast)(self.lo, power)
                } else {
                    (math.slow)(self.lo, power)
                };
                self.hi = if hi_fast {
                    (math.fast)(self.hi, power)
                } else {
                    (math.slow)(self.hi, power)
                };
            },
        }
    }
}

/// Whether `after` is the automatic gain behind a block: it follows the powers, or is one.
pub open spec fn auto_gained<M: Fn(Level) -> Level>(
    follows: bool,
    before: Level,
    mixed: M,
    after: Level,
) -> bool {
    if follows {
        call_ensures(mixed, (before,), after)
    } else {
        after == unity()
    }
}

/// The automatic gain behind a block with the given powers; `mixed` mixes the gain with what the
/// powers ask for.
pub fn next_auto_gain<M: Fn(Level) -> Level>(
    gain: Level,
    auto_gain: bool,
    samples: usize,
    power_in: Level,
    power_out: Level,
    mixed: M,
) -> (r: Level)
    requires
        forall|g: Level| call_requires(mixed, (g,)),
    ensures
        auto_gained(
            auto_gain && samples > 0 && power_out.above(Level { bits: POWER_FLOOR_BITS })
                && power_in.above(Level { bits: POWER_FLOOR_BITS }),
            gain,
            mixed,
            r,
        ),
{
    if follows_power(auto_gain, samples, power_in, power_out) {
        mixed(gain)
    } else {
        Level { bits: ONE_BITS }
    }
}

/// Whether `r` is the balance: none without a signal.
pub open spec fn balanced<B: Fn(Level) -> Level>(sum: Level, part: B, r: Level) -> bool {
    if sum.above(Level { bits: BALANCE_FLOOR_BITS }) {
        call_ensures(part, (sum,), r)
    } else {
        r == (Level { bits: 0 })
    }
}

/// The balance of the channels; `sum` adds both levels, `part` divides their difference by it.
pub fn balance_of<B: Fn(Level) -> Level>(sum: Level, part: B) -> (r: Level)
    requires
        forall|s: Level| call_requires(part, (s,)),
    ensures
        balanced(sum, part, r),
{
    if sum.gt(Level { bits: BALANCE_FLOOR_BITS }) {
        part(sum)
    } else {
        Level { bits: 0 }
    }
}

/// Whether `r` is the correlation: one without a signal, and never past one.
pub open spec fn correlated<C: Fn(Level) -> Level>(den: Level, ratio: C, r: Level) -> bool {
    let lo = Level { bits: MINUS_ONE_BITS };
    if den.above(Level { bits: POWER_FLOOR_BITS }) {
        exists|q: Level| #[trigger] call_ensures(ratio, (den,), q) && r == q.clamped(lo, unity())
    } else {
        r == unity()
    }
}

/// The correlation of the channels; `den` is the root of the product of their powers, `ratio`
/// divides their common power by it.
pub fn correlation_of<C: Fn(Level) -> Level>(den: Level, ratio: C) -> (r: Level)
    requires
        forall|d: Level| call_requires(ratio, (d,)),
    ensures
        correlated(den, ratio, r),
{
    let lo: Level = Level { bits: MINUS_ONE_BITS };
    let hi: Level = Level { bits: ONE_BITS };
    if den.gt(Level { bits: POWER_FLOOR_BITS }) {
        let q: Level = ratio(den);
        q.clamp(lo, hi)
    } else {
        Level { bits: ONE_BITS }
    }
}

/// The gain that the pre-master stage found, held between the most that it cuts and boosts; `ratio`
/// is the target over the peak.
pub fn pre_master_gain(ratio: Level, max_cut: Level, max_boost: Level) -> (r: Level)
    requires
        max_boost.at_least(max_cut),
    ensures
        r == ratio.clamped(max_cut, max_boost),
{
    ratio.clamp(max_cut, max_boost)
}

/// The offset that evens out the loudness: at least -24 dB, and at most what the true peak leaves
/// below its ceiling.
pub fn loudness_offset(offset: Level, headroom: Level) -> (r: Level)
    requires
        headroom.at_least(Level { bits: LOUD_MIN_BITS }),
    ensures
        r == offset.clamped(Level { bits: LOUD_MIN_BITS }, headroom),
        !offset.nan() ==> headroom.at_least(r),
{
    offset.clamp(Level { bits: LOUD_MIN_BITS }, headroom)
}

/// Whether `after` is the envelope of the scope behind a block: it rises by `attack` and falls by
/// `release`.
pub open spec fn enveloped<A: Fn(Level, Level) -> Level, R: Fn(Level, Level) -> Level>(
    before: Level,
    peak: Level,
    attack: A,
    release: R,
    after: Level,
) -> bool {
    if peak.above(before) {
        call_ensures(attack, (before, peak), after)
    } else {
        call_ensures(release, (before, peak), after)
    }
}

/// The envelope of the scope behind a block with the given peak.
pub fn scope_envelope<A: Fn(Level, Level) -> Level, R: Fn(Level, Level) -> Level>(
    envelope: Level,
    peak: Level,
    attack: A,
    release: R,
) -> (r: Level)
    requires
        forall|e: Level, p: Level| call_requires(attack, (e, p)),
        forall|e: Level, p: Level| call_requires(release, (e, p)),
    ensures
        enveloped(envelope, peak, attack, release, r),
{
    if peak.gt(envelope) {
        attack(envelope, peak)
    } else {
        release(envelope, peak)
    }
}

/// By how much the scope enlarges at an envelope: not at all where that is too faint, and never by
/// more than 20.
pub open spec fn enlarged<G: Fn(Level) -> Level>(envelope: Level, gain: G, r: Level) -> bool {
    if envelope.above(Level { bits: ENVELOPE_FLOOR_BITS }) {
        exists|g: Level| #[trigger]
            call_ensures(gain, (envelope,), g) && r == g.smaller(Level { bits: SCOPE_GAIN_BITS })
    } else {
        r == (Level { bits: 0 })
    }
}

/// By how much the scope enlarges; `gain` gives what fills the scope.
pub fn scope_gain<G: Fn(Level) -> Level>(envelope: Level, gain: G) -> (r: Level)
    requires
        forall|e: Level| call_requires(gain, (e,)),
    ensures
        enlarged(envelope, gain, r),
{
    if envelope.gt(Level { bits: ENVELOPE_FLOOR_BITS }) {
        let g: Level = gain(envelope);
        g.min(Level { bits: SCOPE_GAIN_BITS })
    } else {
        Level { bits: 0 }
    }
}

/// What is shown where nothing was listened to: silence in every band.
pub fn silent_bands() -> (r: [Level; 5])
    ensures
        forall|b: int| 0 <= b < 5 ==> #[trigger] r@[b] == (Level { bits: SILENCE_BITS }),
{
    let s: Level = Level { bits: SILENCE_BITS };
    [s, s, s, s, s]
}

} // verus!
