//! What holds of every block that Equilibrium processes.

use crate::equilibrium::{
    audible_bands, follows_power, metered_peaks, output_of, range_end, range_move, tuned,
    width_curve, AutoLoud, BlockPlan, Controls, Equilibrium, ListenStep, PreMaster, PreMasterStep,
    RangeMove, Tuning, WidthCurve,
};
use crate::equilibrium_chain::{
    band_stages, balance_of, clamp_frame, correlation_of, head_stages,
    law_the_chain_keeps_its_order, loudness_offset, next_auto_gain, normalises_pan, pre_master_gain,
    sample_stages, scope_envelope, scope_gain, stage_if, stage_rank, stages, tail_stages,
    ListenMath, ListenRange, Stage,
};
use crate::hold::{loudest, loudest_of_both, PeakHolds};
use crate::level::Level;
use crate::scope::Frame;
use crate::snapshot::{snap_mode, snap_source, snap_threshold, SnapMode, SnapSource, SnapState};
use crate::wide::Wide;
use vstd::prelude::*;

verus! {

proof fn lemma_push_has(s: Seq<Stage>, x: Stage, y: Stage)
    ensures
        s.push(x).contains(y) <==> s.contains(y) || x == y,
{
    if s.contains(y) {
        let w = choose|w: int| 0 <= w < s.len() && s[w] == y;
        assert(s.push(x)[w] == y);
    }
    if x == y {
        assert(s.push(x)[s.len() as int] == y);
    }
}

proof fn lemma_join_has(a: Seq<Stage>, b: Seq<Stage>, y: Stage)
    ensures
        (a + b).contains(y) <==> a.contains(y) || b.contains(y),
{
    let s = a + b;
    if a.contains(y) {
        let w = choose|w: int| 0 <= w < a.len() && a[w] == y;
        assert(s[w] == y);
    }
    if b.contains(y) {
        let w = choose|w: int| 0 <= w < b.len() && b[w] == y;
        assert(s[a.len() + w] == y);
    }
    if s.contains(y) {
        let w = choose|w: int| 0 <= w < s.len() && s[w] == y;
        if w < a.len() {
            assert(a[w] == y);
        } else {
            assert(b[w - a.len()] == y);
        }
    }
}

proof fn lemma_if_has(on: bool, x: Stage, y: Stage)
    ensures
        stage_if(on, x).contains(y) <==> on && x == y,
{
    if on {
        assert(stage_if(on, x)[0] == x);
    }
}

proof fn lemma_head_has(p: BlockPlan, y: Stage)
    ensures
        head_stages(p).contains(y) <==> y == Stage::LowCut || y == Stage::Crossover || (y
            == Stage::HighCut && p.high_cut),
{
    let a = seq![Stage::LowCut];
    let b = stage_if(p.high_cut, Stage::HighCut);
    let c = seq![Stage::Crossover];
    lemma_join_has(a + b, c, y);
    lemma_join_has(a, b, y);
    lemma_if_has(true, Stage::LowCut, y);
    lemma_if_has(p.high_cut, Stage::HighCut, y);
    lemma_if_has(true, Stage::Crossover, y);
}

proof fn lemma_tail_has(p: BlockPlan, y: Stage)
    ensures
        tail_stages(p).contains(y) <==> y == Stage::Sum || y == Stage::OutputGain || y
            == Stage::Clamp || (y == Stage::MonoFloor && p.mono_floor_on) || (y == Stage::Mono
            && p.mono) || (y == Stage::Delta && p.delta) || (y == Stage::AutoGain && p.auto_gain),
{
    let a = seq![Stage::Sum];
    let b = stage_if(p.mono_floor_on, Stage::MonoFloor);
    let c = stage_if(p.mono, Stage::Mono);
    let d = stage_if(p.delta, Stage::Delta);
    let e = seq![Stage::OutputGain];
    let f = stage_if(p.auto_gain, Stage::AutoGain);
    let g = seq![Stage::Clamp];
    lemma_join_has(a + b + c + d + e + f, g, y);
    lemma_join_has(a + b + c + d + e, f, y);
    lemma_join_has(a + b + c + d, e, y);
    lemma_join_has(a + b + c, d, y);
    lemma_join_has(a + b, c, y);
    lemma_join_has(a, b, y);
    lemma_if_has(true, Stage::Sum, y);
    lemma_if_has(p.mono_floor_on, Stage::MonoFloor, y);
    lemma_if_has(p.mono, Stage::Mono, y);
    lemma_if_has(p.delta, Stage::Delta, y);
    lemma_if_has(true, Stage::OutputGain, y);
    lemma_if_has(p.auto_gain, Stage::AutoGain, y);
    lemma_if_has(true, Stage::Clamp, y);
}

proof fn lemma_bands_have(audible: Seq<bool>, n: nat, y: Stage)
    requires
        n <= 5,
    ensures
        band_stages(audible, n).contains(y) <==> match y {
            Stage::BandGain(b) => b < n,
            Stage::BandWidth(b) => b < n,
            Stage::BandPan(b) => b < n,
            Stage::BandMute(b) => b < n && !audible[b as int],
            _ => false,
        },
    decreases n,
{
    if n > 0 {
        lemma_bands_have(audible, (n - 1) as nat, y);
        let b = (n - 1) as usize;
        let s = band_stages(audible, (n - 1) as nat);
        let s1 = s.push(Stage::BandGain(b));
        let s2 = s1.push(Stage::BandWidth(b));
        let s3 = s2.push(Stage::BandPan(b));
        lemma_push_has(s, Stage::BandGain(b), y);
        lemma_push_has(s1, Stage::BandWidth(b), y);
        lemma_push_has(s2, Stage::BandPan(b), y);
        lemma_push_has(s3, Stage::BandMute(b), y);
    }
}

/// A block passes exactly the stages that are switched on: the cuts, the crossover, the sum, the
/// gain and the clamp always, the others as the plan asks; every one of the five bands its gain,
/// its width and its pan, and silence exactly where it is not heard.
pub proof fn law_a_block_passes_what_is_switched_on(p: &BlockPlan, r: Vec<Stage>, b: usize)
    requires
        call_ensures(sample_stages, (p,), r),
    ensures
        r@.contains(Stage::BandMute(b)) <==> b < 5 && !p.audible@[b as int],
        r@.contains(Stage::BandGain(b)) <==> b < 5,
        r@.contains(Stage::BandWidth(b)) <==> b < 5,
        r@.contains(Stage::BandPan(b)) <==> b < 5,
        r@.contains(Stage::LowCut),
        r@.contains(Stage::HighCut) <==> p.high_cut,
        r@.contains(Stage::Crossover),
        r@.contains(Stage::Sum),
        r@.contains(Stage::MonoFloor) <==> p.mono_floor_on,
        r@.contains(Stage::Mono) <==> p.mono,
        r@.contains(Stage::Delta) <==> p.delta,
        r@.contains(Stage::OutputGain),
        r@.contains(Stage::AutoGain) <==> p.auto_gain,
        r@.contains(Stage::Clamp),
{
    assert forall|y: Stage| #[trigger] r@.contains(y) == (head_stages(*p).contains(y) || band_stages(
        p.audible@,
        5,
    ).contains(y) || tail_stages(*p).contains(y)) by {
        lemma_join_has(head_stages(*p), band_stages(p.audible@, 5), y);
        lemma_join_has(head_stages(*p) + band_stages(p.audible@, 5), tail_stages(*p), y);
    }
    assert forall|y: Stage|
        #![trigger r@.contains(y)]
        r@.contains(y) == match y {
            Stage::BandGain(b) => b < 5,
            Stage::BandWidth(b) => b < 5,
            Stage::BandPan(b) => b < 5,
            Stage::BandMute(b) => b < 5 && !p.audible@[b as int],
            Stage::HighCut => p.high_cut,
            Stage::MonoFloor => p.mono_floor_on,
            Stage::Mono => p.mono,
            Stage::Delta => p.delta,
            Stage::AutoGain => p.auto_gain,
            _ => true,
        } by {
        lemma_head_has(*p, y);
        lemma_bands_have(p.audible@, 5, y);
        lemma_tail_has(*p, y);
    }
}

/// The place of a stage on the way through the plugin.
pub open spec fn place(s: Stage) -> int {
    match s {
        Stage::LowCut => 1,
        Stage::HighCut => 2,
        Stage::Crossover => 3,
        Stage::BandGain(b) => 4 + 4 * b,
        Stage::BandWidth(b) => 5 + 4 * b,
        Stage::BandPan(b) => 6 + 4 * b,
        Stage::BandMute(b) => 7 + 4 * b,
        Stage::Sum => 24,
        Stage::MonoFloor => 25,
        Stage::Mono => 26,
        Stage::Delta => 27,
        Stage::OutputGain => 28,
        Stage::AutoGain => 29,
        Stage::Clamp => 30,
    }
}

/// The stages come in the order of the signal, none of them twice.
pub proof fn law_the_stages_come_in_the_order_of_the_signal(
    p: &BlockPlan,
    r: Vec<Stage>,
    i: int,
    j: int,
)
    requires
        call_ensures(sample_stages, (p,), r),
        0 <= i < j < r@.len(),
    ensures
        place(r@[i]) < place(r@[j]),
{
    law_the_chain_keeps_its_order(*p);
    lemma_band_of(p, r, i);
    lemma_band_of(p, r, j);
    assert(r@ == stages(*p));
    let x = r@[i];
    let y = r@[j];
    lemma_places(x, y);
}

spec fn band_below_five(s: Stage) -> bool {
    match s {
        Stage::BandGain(b) => b < 5,
        Stage::BandWidth(b) => b < 5,
        Stage::BandPan(b) => b < 5,
        Stage::BandMute(b) => b < 5,
        _ => true,
    }
}

proof fn lemma_band_of(p: &BlockPlan, r: Vec<Stage>, k: int)
    requires
        call_ensures(sample_stages, (p,), r),
        0 <= k < r@.len(),
    ensures
        band_below_five(r@[k]),
{
    let y = r@[k];
    assert(r@.contains(y));
    match y {
        Stage::BandGain(b) => law_a_block_passes_what_is_switched_on(p, r, b),
        Stage::BandWidth(b) => law_a_block_passes_what_is_switched_on(p, r, b),
        Stage::BandPan(b) => law_a_block_passes_what_is_switched_on(p, r, b),
        Stage::BandMute(b) => law_a_block_passes_what_is_switched_on(p, r, b),
        _ => {},
    }
}

proof fn lemma_places(x: Stage, y: Stage)
    requires
        band_below_five(x),
        band_below_five(y),
        stage_rank(x) < stage_rank(y),
    ensures
        place(x) < place(y),
{
}

/// With a band soloed exactly the soloed bands are heard, and all others are silenced; with none
/// soloed no band is silenced.
pub proof fn law_solo_silences_the_other_bands(
    e: &mut Equilibrium,
    c: &Controls,
    p: BlockPlan,
    r: Vec<Stage>,
    b: usize,
)
    requires
        call_ensures(Equilibrium::begin_block, (e, c), p),
        call_ensures(sample_stages, (&p,), r),
        b < 5,
    ensures
        r@.contains(Stage::BandMute(b)) <==> !c.solo@[b as int] && exists|k: int|
            0 <= k < 5 && #[trigger] c.solo@[k],
{
    law_a_block_passes_what_is_switched_on(&p, r, b);
    assert(p.audible@[b as int] == crate::equilibrium::band_heard(c.solo@, b as int));
}

/// What a block is asked to do follows from what the user has set: each switch reaches its own
/// stage, the high cut is on from 88.2 kHz, the mono floor above 1 Hz, and while a capture takes
/// the mono or the difference spectrum, that is what plays.
pub proof fn law_every_switch_reaches_its_stage(e: &mut Equilibrium, c: &Controls, p: BlockPlan)
    requires
        call_ensures(Equilibrium::begin_block, (e, c), p),
    ensures
        p.bypass == c.bypass,
        p.listen == c.listen,
        p.auto_gain == c.auto_gain,
        p.reset_analysis == c.reset_analysis,
        p.measuring == old(e).auto_loud.measuring,
        p.high_cut == c.sample_rate.at_least(Level { bits: 0x47ac_4400 }),
        p.mono_floor_on == c.mono_floor.above(Level { bits: 0x3f80_0000 }),
        old(e).snap.phase != 2 ==> p.mono == c.mono,
        old(e).snap.phase == 2 ==> p.mono,
        old(e).snap.phase != 3 ==> p.delta == c.delta,
        old(e).snap.phase == 3 ==> p.delta,
        p.retune_mono_floor ==> p.mono_floor_on && final(e).cached_mono_floor_freq == c.mono_floor,
        p.mono_floor_on && !p.retune_mono_floor ==> c.mono_floor.same(
            old(e).cached_mono_floor_freq,
        ) && c.sample_rate.same(old(e).cached_sample_rate),
        !c.sample_rate.same(old(e).cached_sample_rate) ==> final(e).cached_sample_rate
            == c.sample_rate && (p.mono_floor_on ==> p.retune_mono_floor),
        c.sample_rate.same(old(e).cached_sample_rate) ==> final(e).cached_sample_rate == old(
            e,
        ).cached_sample_rate,
        !p.retune_mono_floor ==> final(e).cached_mono_floor_freq == old(e).cached_mono_floor_freq,
{
}

/// A block forgets only what it is asked to: the held peaks go back to -90 dB and the analysis to
/// its start where that is asked for, and everything else of the state is left to the stages.
pub proof fn law_a_block_forgets_only_what_is_asked(e: &mut Equilibrium, c: &Controls, p: BlockPlan)
    requires
        call_ensures(Equilibrium::begin_block, (e, c), p),
    ensures
        c.reset_peak ==> final(e).holds.value.bits == 0xc2b4_0000 && final(e).holds.left.bits
            == 0xc2b4_0000 && final(e).holds.right.bits == 0xc2b4_0000,
        !c.reset_peak ==> final(e).holds == old(e).holds,
        c.reset_analysis ==> final(e).listen_sample_count == 0,
        !c.reset_analysis ==> final(e).listen_sample_count == old(e).listen_sample_count,
        final(e).auto_loud == old(e).auto_loud,
        final(e).pre_master == old(e).pre_master,
        final(e).snap == old(e).snap,
{
}

/// The filters of a sample rate: the low cut at 8 Hz, the crossovers at 80, 300, 2000 and 6000 Hz,
/// the high cut at 35 kHz from 88.2 kHz on, the mono floor where it is set above 1 Hz.
pub proof fn law_filters_are_tuned_to_their_frequencies(
    e: &mut Equilibrium,
    rate: Level,
    floor: Level,
    t: Tuning,
)
    requires
        call_ensures(Equilibrium::reset, (e, rate, floor), t),
    ensures
        t.sample_rate == rate,
        t.low_cut.bits == 0x4100_0000,
        t.crossovers@[0].bits == 0x42a0_0000,
        t.crossovers@[1].bits == 0x4396_0000,
        t.crossovers@[2].bits == 0x44fa_0000,
        t.crossovers@[3].bits == 0x45bb_8000,
        rate.at_least(Level { bits: 0x47ac_4400 }) ==> t.high_cut == Some(
            Level { bits: 0x4708_b800 },
        ),
        !rate.at_least(Level { bits: 0x47ac_4400 }) ==> t.high_cut is None,
        floor.above(Level { bits: 0x3f80_0000 }) ==> t.mono_floor == Some(floor)
            && final(e).cached_mono_floor_freq == floor,
        !floor.above(Level { bits: 0x3f80_0000 }) ==> t.mono_floor is None
            && final(e).cached_mono_floor_freq == old(e).cached_mono_floor_freq,
        final(e).cached_sample_rate == rate,
        final(e).holds == old(e).holds,
        final(e).pre_master == old(e).pre_master,
        final(e).auto_loud == old(e).auto_loud,
        final(e).snap == old(e).snap,
        final(e).listen_sample_count == old(e).listen_sample_count,
{
    assert(tuned(t, rate, floor));
}

/// A bypassed block sends on its input, and any other what was processed.
pub proof fn law_a_bypass_sends_on_the_input(dry: Vec<Frame>, wet: Vec<Frame>, r: Vec<Frame>)
    ensures
        call_ensures(output_of, (true, dry, wet), r) ==> r == dry,
        call_ensures(output_of, (false, dry, wet), r) ==> r == wet,
{
}

proof fn lemma_loudest_bounds(samples: Seq<Level>, n: nat)
    requires
        n <= samples.len(),
    ensures
        !loudest(samples, n).nan(),
        forall|i: int|
            0 <= i < n ==> !(#[trigger] samples[i]).absolute().above(loudest(samples, n)),
        loudest(samples, n).bits == 0 || exists|i: int|
            0 <= i < n && (#[trigger] samples[i]).absolute() == loudest(samples, n),
    decreases n,
{
    if n > 0 {
        lemma_loudest_bounds(samples, (n - 1) as nat);
        let before = loudest(samples, (n - 1) as nat);
        if before.bits != 0 && loudest(samples, n) == before {
            let w = choose|w: int|
                0 <= w < n - 1 && (#[trigger] samples[w]).absolute() == before;
            assert(samples[w].absolute() == loudest(samples, n));
        } else if loudest(samples, n) != before {
            assert(samples[n - 1].absolute() == loudest(samples, n));
        }
    }
}

proof fn lemma_both_bounds(left: Seq<Level>, right: Seq<Level>, n: nat)
    requires
        n <= left.len() == right.len(),
    ensures
        !loudest_of_both(left, right, n).nan(),
        forall|i: int|
            0 <= i < n ==> !(#[trigger] left[i]).absolute().above(loudest_of_both(left, right, n)),
        forall|i: int|
            0 <= i < n ==> !(#[trigger] right[i]).absolute().above(loudest_of_both(left, right, n)),
        loudest_of_both(left, right, n).bits == 0 || (exists|i: int|
            0 <= i < n && (#[trigger] left[i]).absolute() == loudest_of_both(left, right, n)) || (
        exists|i: int|
            0 <= i < n && (#[trigger] right[i]).absolute() == loudest_of_both(left, right, n)),
    decreases n,
{
    if n > 0 {
        lemma_both_bounds(left, right, (n - 1) as nat);
        let before = loudest_of_both(left, right, (n - 1) as nat);
        let now = loudest_of_both(left, right, n);
        assert(now == before || left[n - 1].absolute() == now || right[n - 1].absolute() == now);
        if now == before && before.bits != 0 {
            if exists|i: int| 0 <= i < n - 1 && (#[trigger] left[i]).absolute() == before {
                let w = choose|w: int| 0 <= w < n - 1 && (#[trigger] left[w]).absolute() == before;
                assert(left[w].absolute() == now);
            } else {
                let w = choose|w: int| 0 <= w < n - 1 && (#[trigger] right[w]).absolute() == before;
                assert(right[w].absolute() == now);
            }
        }
    }
}

/// The meters show the loudest sample of each channel and of both, and nothing while bypassed.
pub proof fn law_meters_show_the_loudest_sample(
    left: &Vec<Level>,
    right: &Vec<Level>,
    r: PeakHolds,
    off: PeakHolds,
    i: int,
)
    requires
        left@.len() == right@.len(),
        call_ensures(metered_peaks, (false, left, right), r),
        call_ensures(metered_peaks, (true, left, right), off),
        0 <= i < left@.len(),
    ensures
        !left@[i].absolute().above(r.left),
        !right@[i].absolute().above(r.right),
        !left@[i].absolute().above(r.value),
        !right@[i].absolute().above(r.value),
        r.left.bits == 0 || exists|k: int|
            0 <= k < left@.len() && (#[trigger] left@[k]).absolute() == r.left,
        r.right.bits == 0 || exists|k: int|
            0 <= k < right@.len() && (#[trigger] right@[k]).absolute() == r.right,
        r.value.bits == 0 || (exists|k: int|
            0 <= k < left@.len() && (#[trigger] left@[k]).absolute() == r.value) || (exists|k: int|
            0 <= k < right@.len() && (#[trigger] right@[k]).absolute() == r.value),
        off.left.bits == 0 && off.right.bits == 0 && off.value.bits == 0,
{
    lemma_loudest_bounds(left@, left@.len());
    lemma_loudest_bounds(right@, right@.len());
    lemma_both_bounds(left@, right@, left@.len());
}

/// What leaves the chain lies between -1 and 1, and what lies there already is not touched; the
/// channels stay apart.
pub proof fn law_the_clamp_keeps_the_channels(f: Frame, r: Frame)
    requires
        call_ensures(clamp_frame, (f,), r),
    ensures
        f.0.at_least(Level { bits: 0xbf80_0000 }) && (Level { bits: 0x3f80_0000 }).at_least(f.0)
            ==> r.0 == f.0,
        f.0.above(Level { bits: 0x3f80_0000 }) ==> r.0.bits == 0x3f80_0000,
        (Level { bits: 0xbf80_0000 }).above(f.0) ==> r.0.bits == 0xbf80_0000,
        f.1.at_least(Level { bits: 0xbf80_0000 }) && (Level { bits: 0x3f80_0000 }).at_least(f.1)
            ==> r.1 == f.1,
        f.1.above(Level { bits: 0x3f80_0000 }) ==> r.1.bits == 0x3f80_0000,
        (Level { bits: 0xbf80_0000 }).above(f.1) ==> r.1.bits == 0xbf80_0000,
{
}

/// Only in the two lowest bands, and only what exceeds one, is a width tamed: more in the lowest.
pub proof fn law_only_low_bands_are_tamed(band: usize, width: Level, r: WidthCurve)
    requires
        call_ensures(width_curve, (band, width), r),
    ensures
        r == WidthCurve::Quarter <==> band == 0 && width.above(Level { bits: 0x3f80_0000 }),
        r == WidthCurve::Partial <==> band == 1 && width.above(Level { bits: 0x3f80_0000 }),
        r == WidthCurve::Full <==> band >= 2 || !width.above(Level { bits: 0x3f80_0000 }),
{
}

/// The pan law of a band is normalised where its louder gain is above 0.001.
pub proof fn law_faint_pans_are_not_normalised(loudest: Level, r: bool)
    requires
        call_ensures(normalises_pan, (loudest,), r),
    ensures
        r == loudest.above(Level { bits: 0x3a83_126f }),
{
}

/// The range of a band stays where a power is not above the threshold, starts at the first power
/// above it, and from then on moves both ends towards the power: an end that the power lies
/// outside of moves fast, the other slowly.
pub proof fn law_the_range_of_a_band_follows_its_power<
    A: Fn(Wide, Wide) -> Wide,
    G: Fn(Wide) -> Wide,
    F: Fn(Wide, Wide) -> Wide,
    S: Fn(Wide, Wide) -> Wide,
>(r: &mut ListenRange, power: Wide, math: &ListenMath<A, G, F, S>, u: ())
    requires
        call_ensures(ListenRange::listen::<A, G, F, S>, (r, power, math), u),
    ensures
        call_ensures(math.average, (power, old(r).reference), final(r).reference),
        exists|gate: Wide| #[trigger]
            call_ensures(math.gate, (final(r).reference,), gate) && {
                &&& !power.above(gate) ==> final(r).lo == old(r).lo && final(r).hi == old(r).hi
                &&& power.above(gate) && !old(r).lo.finite() ==> final(r).lo == power && final(r).hi
                    == power
                &&& power.above(gate) && old(r).lo.finite() && old(r).lo.above(power)
                    ==> call_ensures(math.fast, (old(r).lo, power), final(r).lo)
                &&& power.above(gate) && old(r).lo.finite() && !old(r).lo.above(power)
                    ==> call_ensures(math.slow, (old(r).lo, power), final(r).lo)
                &&& power.above(gate) && old(r).lo.finite() && power.above(old(r).hi)
                    ==> call_ensures(math.fast, (old(r).hi, power), final(r).hi)
                &&& power.above(gate) && old(r).lo.finite() && !power.above(old(r).hi)
                    ==> call_ensures(math.slow, (old(r).hi, power), final(r).hi)
            },
{
    assert(ListenRange::listened(*old(r), power, *math, *final(r)));
}

/// A range that holds nothing lets the first power above the threshold start it: its lower end is
/// infinite and its average zero.
pub proof fn law_a_new_range_holds_nothing(r: ListenRange)
    requires
        call_ensures(ListenRange::new, (), r),
    ensures
        r.lo.bits == 0x7ff0_0000_0000_0000,
        r.hi.bits == 0xfff0_0000_0000_0000,
        r.reference.bits == 0,
        !r.lo.finite(),
{
}

/// How a range moves: it holds exactly for powers not above the threshold, starts exactly where it
/// holds nothing, and moves an end fast exactly where the power lies outside of it.
pub proof fn law_a_range_moves_by_its_power(
    power: Wide,
    gate: Wide,
    lo: Wide,
    hi: Wide,
    r: RangeMove,
)
    requires
        call_ensures(range_move, (power, gate, lo, hi), r),
    ensures
        r == RangeMove::Hold <==> !power.above(gate),
        r == RangeMove::Start <==> power.above(gate) && !lo.finite(),
        r matches RangeMove::Follow { lo_fast, hi_fast } ==> lo_fast == lo.above(power) && hi_fast
            == power.above(hi),
{
}

/// The end of a range is what was found, and the average where nothing was.
pub proof fn law_an_open_end_is_the_average(end: Wide, average: Wide, r: Wide)
    requires
        call_ensures(range_end, (end, average), r),
    ensures
        end.finite() ==> r == end,
        !end.finite() ==> r == average,
{
}

/// The automatic gain is one unless it is on and there is a signal on both sides.
pub proof fn law_the_automatic_gain_rests_at_one<M: Fn(Level) -> Level>(
    gain: Level,
    on: bool,
    samples: usize,
    power_in: Level,
    power_out: Level,
    mixed: M,
    r: Level,
)
    requires
        call_ensures(next_auto_gain::<M>, (gain, on, samples, power_in, power_out, mixed), r),
    ensures
        !on || samples == 0 || !power_in.above(Level { bits: 0x3089_705f }) || !power_out.above(
            Level { bits: 0x3089_705f },
        ) ==> r.bits == 0x3f80_0000,
        on && samples > 0 && power_in.above(Level { bits: 0x3089_705f }) && power_out.above(
            Level { bits: 0x3089_705f },
        ) ==> call_ensures(mixed, (gain,), r),
{
}

/// The balance is zero without a signal, and else what the levels give.
pub proof fn law_silence_is_balanced<B: Fn(Level) -> Level>(sum: Level, part: B, r: Level)
    requires
        call_ensures(balance_of::<B>, (sum, part), r),
    ensures
        !sum.above(Level { bits: 0x3586_37bd }) ==> r.bits == 0,
        sum.above(Level { bits: 0x3586_37bd }) ==> call_ensures(part, (sum,), r),
{
}

/// The correlation is one without a signal, and never leaves the range from -1 to 1.
pub proof fn law_the_correlation_stays_in_range<C: Fn(Level) -> Level>(
    den: Level,
    ratio: C,
    r: Level,
)
    requires
        call_ensures(correlation_of::<C>, (den, ratio), r),
    ensures
        !den.above(Level { bits: 0x3089_705f }) ==> r.bits == 0x3f80_0000,
        !r.nan() ==> r.at_least(Level { bits: 0xbf80_0000 }) && (Level {
            bits: 0x3f80_0000,
        }).at_least(r),
        den.above(Level { bits: 0x3089_705f }) ==> exists|q: Level| #[trigger]
            call_ensures(ratio, (den,), q) && (q.at_least(Level { bits: 0xbf80_0000 }) && (Level {
                bits: 0x3f80_0000,
            }).at_least(q) ==> r == q) && (q.above(Level { bits: 0x3f80_0000 }) ==> r.bits
                == 0x3f80_0000) && ((Level { bits: 0xbf80_0000 }).above(q) ==> r.bits
                == 0xbf80_0000),
{
    if den.above(Level { bits: 0x3089_705f }) {
        assert(crate::equilibrium_chain::correlated(den, ratio, r));
    }
}

/// The gain of the pre-master stage is what was found, held between its ends.
pub proof fn law_the_found_gain_is_held(ratio: Level, cut: Level, boost: Level, r: Level)
    requires
        boost.at_least(cut),
        call_ensures(pre_master_gain, (ratio, cut, boost), r),
    ensures
        ratio.at_least(cut) && boost.at_least(ratio) ==> r == ratio,
        cut.above(ratio) ==> r == cut,
        ratio.above(boost) ==> r == boost,
{
}

/// The loudness offset lowers by 24 dB at most and raises by the headroom at most.
pub proof fn law_the_loudness_offset_leaves_the_headroom(offset: Level, headroom: Level, r: Level)
    requires
        headroom.at_least(Level { bits: 0xc1c0_0000 }),
        call_ensures(loudness_offset, (offset, headroom), r),
    ensures
        offset.at_least(Level { bits: 0xc1c0_0000 }) && headroom.at_least(offset) ==> r == offset,
        (Level { bits: 0xc1c0_0000 }).above(offset) ==> r.bits == 0xc1c0_0000,
        offset.above(headroom) ==> r == headroom,
{
}

/// The envelope of the scope rises with a louder peak and falls back with any other.
pub proof fn law_the_scope_follows_its_peak<
    A: Fn(Level, Level) -> Level,
    R: Fn(Level, Level) -> Level,
>(envelope: Level, peak: Level, attack: A, release: R, r: Level)
    requires
        call_ensures(scope_envelope::<A, R>, (envelope, peak, attack, release), r),
    ensures
        peak.above(envelope) ==> call_ensures(attack, (envelope, peak), r),
        !peak.above(envelope) ==> call_ensures(release, (envelope, peak), r),
{
}

/// The scope enlarges by 20 at most, and not at all what is too faint.
pub proof fn law_the_scope_enlarges_by_twenty_at_most<G: Fn(Level) -> Level>(
    envelope: Level,
    gain: G,
    r: Level,
)
    requires
        call_ensures(scope_gain::<G>, (envelope, gain), r),
    ensures
        !envelope.above(Level { bits: 0x3727_c5ac }) ==> r.bits == 0,
        envelope.above(Level { bits: 0x3727_c5ac }) ==> exists|g: Level| #[trigger]
            call_ensures(gain, (envelope,), g) && ((Level { bits: 0x41a0_0000 }).at_least(g) ==> r
                == g) && (!(Level { bits: 0x41a0_0000 }).at_least(g) ==> r.bits == 0x41a0_0000),
{
    if envelope.above(Level { bits: 0x3727_c5ac }) {
        assert(crate::equilibrium_chain::enlarged(envelope, gain, r));
    }
}

/// A loudness measurement begins once for each time it is asked for.
pub proof fn law_a_measurement_begins_once(a: &mut AutoLoud, r: bool)
    requires
        call_ensures(AutoLoud::begin, (a,), r),
    ensures
        r == old(a).trigger,
        !final(a).trigger,
        final(a).measuring == (old(a).measuring || old(a).trigger),
{
}

/// A loudness measurement ends with the block that completes it.
pub proof fn law_a_measurement_ends_when_complete(
    a: &mut AutoLoud,
    was: bool,
    measured: u64,
    target: u64,
    r: bool,
)
    requires
        call_ensures(AutoLoud::finish, (a, was, measured, target), r),
    ensures
        r <==> was && measured >= target,
        r ==> !final(a).measuring,
        !r ==> final(a).measuring == old(a).measuring,
        final(a).trigger == old(a).trigger,
{
}

/// The automatic gain follows exactly where it is on and both powers are above 1e-9.
pub proof fn law_powers_are_followed_with_a_signal(
    on: bool,
    samples: usize,
    power_in: Level,
    power_out: Level,
    r: bool,
)
    requires
        call_ensures(follows_power, (on, samples, power_in, power_out), r),
    ensures
        r <==> on && samples > 0 && power_in.above(Level { bits: 0x3089_705f })
            && power_out.above(Level { bits: 0x3089_705f }),
{
}

/// Switched off, the pre-master stage has a gain of one and does nothing.
pub proof fn law_a_pre_master_that_is_off_does_nothing(
    p: &mut PreMaster,
    samples: u32,
    peak: Level,
    n: u32,
    gate: Level,
    r: PreMasterStep,
)
    requires
        call_ensures(PreMaster::step, (p, false, samples, peak, n, gate), r),
    ensures
        r == PreMasterStep::Off,
        final(p).gain.bits == 0x3f80_0000,
        !final(p).active_prev,
{
}

/// While it measures, the pre-master stage counts every sample, keeps the loudest peak and does
/// not change its gain.  Once the samples are complete it asks for a gain from that peak, where it
/// is above the threshold; where it is not, the measurement starts again.
pub proof fn law_the_pre_master_measures_then_asks(
    p: &mut PreMaster,
    samples: u32,
    peak: Level,
    n: u32,
    gate: Level,
    r: PreMasterStep,
)
    requires
        old(p).active_prev,
        old(p).gain.bits == 0x3f80_0000,
        old(p).measure_count < samples,
        old(p).measure_count + n <= u32::MAX,
        !old(p).measure_peak.nan(),
        call_ensures(PreMaster::step, (p, true, samples, peak, n, gate), r),
    ensures
        final(p).gain.bits == 0x3f80_0000,
        final(p).active_prev,
        ({
            let loud = if peak.above(old(p).measure_peak) {
                peak
            } else {
                old(p).measure_peak
            };
            if old(p).measure_count + n < samples {
                &&& r == PreMasterStep::Apply
                &&& final(p).measure_count == old(p).measure_count + n
                &&& final(p).measure_peak == loud
            } else if loud.above(gate) {
                &&& r == PreMasterStep::FindGain(loud)
                &&& final(p).measure_count == old(p).measure_count + n
                &&& final(p).measure_peak == loud
            } else {
                &&& r == PreMasterStep::Apply
                &&& final(p).measure_count == 0
                &&& final(p).measure_peak.bits == 0
            }
        }),
{
    assert((Level { bits: 0x3f80_0000 }).same(Level { bits: 0x3f80_0000 }));
}

/// A listening step counts the samples while it listens, and clears what it has once it does not.
pub proof fn law_listening_counts_and_clears(
    e: &mut Equilibrium,
    listen: bool,
    samples: usize,
    r: ListenStep,
)
    requires
        old(e).listen_sample_count + samples <= u64::MAX,
        call_ensures(Equilibrium::listen_step, (e, listen, samples), r),
    ensures
        listen ==> final(e).listen_sample_count == old(e).listen_sample_count + samples && r
            == ListenStep::Measured(final(e).listen_sample_count),
        !listen ==> final(e).listen_sample_count == 0,
        r == ListenStep::Cleared <==> !listen && old(e).listen_sample_count > 0,
        r == ListenStep::Idle <==> !listen && old(e).listen_sample_count == 0,
        final(e).holds == old(e).holds,
        final(e).snap == old(e).snap,
{
}

/// Each hold keeps the louder of what it had and of what its own channel brought.
pub proof fn law_each_hold_keeps_its_own_channel(
    e: &mut Equilibrium,
    value: Level,
    left: Level,
    right: Level,
    u: (),
)
    requires
        call_ensures(Equilibrium::hold_peaks, (e, value, left, right), u),
    ensures
        value.above(old(e).holds.value) ==> final(e).holds.value == value,
        !value.above(old(e).holds.value) ==> final(e).holds.value == old(e).holds.value,
        left.above(old(e).holds.left) ==> final(e).holds.left == left,
        !left.above(old(e).holds.left) ==> final(e).holds.left == old(e).holds.left,
        right.above(old(e).holds.right) ==> final(e).holds.right == right,
        !right.above(old(e).holds.right) ==> final(e).holds.right == old(e).holds.right,
{
}

/// A capture hears the sum of the output in its first two phases, its difference from the input in
/// the third, and nothing else.  The first phase averages 60 frames, the other two 30.
pub proof fn law_each_phase_captures_its_spectrum(
    phase: u32,
    source: SnapSource,
    frames: u32,
    mode: SnapMode,
)
    requires
        call_ensures(snap_source, (phase,), source),
        call_ensures(snap_threshold, (phase,), frames),
        call_ensures(snap_mode, (phase,), mode),
    ensures
        phase == 0 ==> source == SnapSource::Idle,
        phase == 1 ==> source == SnapSource::Sum && frames == 60 && mode == SnapMode::Stereo,
        phase == 2 ==> source == SnapSource::Sum && frames == 30 && mode == SnapMode::Mono,
        phase == 3 ==> source == SnapSource::Difference && frames == 30 && mode == SnapMode::Delta,
        phase > 3 ==> source == SnapSource::Silence,
{
}

/// A capture plays the mono signal in its second phase and the difference in its third, whatever
/// the user has set; outside of these what is set plays.
pub proof fn law_a_capture_plays_what_it_takes(s: SnapState, set: bool, mono: bool, delta: bool)
    requires
        call_ensures(SnapState::mono, (s, set), mono),
        call_ensures(SnapState::delta, (s, set), delta),
    ensures
        s.phase == 2 ==> mono,
        s.phase != 2 ==> mono == set,
        s.phase == 3 ==> delta,
        s.phase != 3 ==> delta == set,
{
}

/// A phase that is complete leads to the next; the third ends the capture.
pub proof fn law_a_complete_phase_leads_on(e: &mut Equilibrium, r: (SnapMode, bool))
    requires
        call_ensures(Equilibrium::snap_captured, (e,), r),
    ensures
        old(e).snap.phase < 3 ==> final(e).snap.phase == old(e).snap.phase + 1 && r.1
            && final(e).snap.active == old(e).snap.active,
        old(e).snap.phase >= 3 ==> final(e).snap.phase == 0 && !r.1 && !final(e).snap.active,
        old(e).snap.phase == 1 ==> r.0 == SnapMode::Stereo,
        old(e).snap.phase == 2 ==> r.0 == SnapMode::Mono,
        old(e).snap.phase == 3 ==> r.0 == SnapMode::Delta,
        final(e).holds == old(e).holds,
        final(e).pre_master == old(e).pre_master,
{
}

/// Which bands are heard: the soloed ones, or all where none is soloed.
pub proof fn law_soloed_bands_are_heard(solo: &[bool; 5], r: [bool; 5], b: int)
    requires
        call_ensures(audible_bands, (solo,), r),
        0 <= b < 5,
    ensures
        r@[b] <==> solo@[b] || forall|k: int| 0 <= k < 5 ==> !#[trigger] solo@[k],
{
    assert(r@[b] == crate::equilibrium::band_heard(solo@, b));
    if crate::equilibrium::any_solo(solo@) {
        assert(solo@[0] || solo@[1] || solo@[2] || solo@[3] || solo@[4]);
    }
}

/// Once its gain is found, a stage measures no more.
pub proof fn law_a_found_gain_is_kept(
    p: &mut PreMaster,
    samples: u32,
    peak: Level,
    n: u32,
    gate: Level,
    r: PreMasterStep,
)
    requires
        old(p).active_prev,
        !old(p).gain.same(Level { bits: 0x3f80_0000 }),
        old(p).measure_count >= samples,
        call_ensures(PreMaster::step, (p, true, samples, peak, n, gate), r),
    ensures
        *final(p) == *old(p),
        r == PreMasterStep::Apply,
{
}

} // verus!
