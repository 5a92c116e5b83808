//! What holds of numbers held by their bits, and of what is found by comparing them.

use crate::equilibrium::PreMaster;
use crate::hold::{block_peaks, hold_peak, loudest, loudest_of_both, PeakHolds};
use crate::level::Level;
use crate::pre_master::{held_ratio, master_levels, MasterLevels, StereoBlock};
use crate::rank::{all_numbers, order_desc, ranked_at};
use crate::resonance::SensitivityThresholds;
use crate::sensitivity::{between, persistence_ends, sensitivity_thresholds};
use crate::wide::Wide;
use vstd::prelude::*;

verus! {

/// What is not a number lies beyond the infinities; what is finite lies below them.
pub proof fn law_the_bits_tell_numbers_apart(l: Level, nan: bool, finite: bool)
    requires
        call_ensures(Level::is_nan, (l,), nan),
        call_ensures(Level::is_finite, (l,), finite),
    ensures
        nan <==> 0x7f80_0000 < l.bits <= 0x7fff_ffff || 0xff80_0000 < l.bits,
        finite <==> l.bits < 0x7f80_0000 || 0x8000_0000 <= l.bits < 0xff80_0000,
{
}

/// Of two numbers with a plus the larger pattern is greater, of two with a minus the smaller one;
/// a plus is greater than a minus, but for the zeros; nothing compares with what is not a number.
pub proof fn law_numbers_compare_by_their_bits(
    a: Level,
    b: Level,
    nan_a: bool,
    nan_b: bool,
    gt: bool,
    ge: bool,
    eq: bool,
)
    requires
        call_ensures(Level::is_nan, (a,), nan_a),
        call_ensures(Level::is_nan, (b,), nan_b),
        call_ensures(Level::gt, (a, b), gt),
        call_ensures(Level::ge, (a, b), ge),
        call_ensures(Level::equals, (a, b), eq),
    ensures
        nan_a || nan_b ==> !gt && !ge && !eq,
        !nan_a && !nan_b ==> {
            let minus_a = a.bits >= 0x8000_0000;
            let minus_b = b.bits >= 0x8000_0000;
            let zeros = (a.bits == 0 || a.bits == 0x8000_0000) && (b.bits == 0 || b.bits
                == 0x8000_0000);
            &&& ge == (gt || eq)
            &&& eq == (zeros || a.bits == b.bits)
            &&& !minus_a && !minus_b ==> gt == (a.bits > b.bits)
            &&& minus_a && minus_b ==> gt == (a.bits < b.bits)
            &&& !minus_a && minus_b ==> gt == !zeros
            &&& minus_a && !minus_b ==> !gt
        },
{
}

/// The larger and the smaller of two, and the value held between two.
pub proof fn law_the_chosen_number_bounds_the_others(
    a: Level,
    b: Level,
    c: Level,
    max: Level,
    min: Level,
    held: Level,
)
    requires
        call_ensures(Level::max, (a, b), max),
        call_ensures(Level::min, (a, b), min),
        call_ensures(Level::clamp, (c, a, b), held),
        !a.nan() && !b.nan() && !c.nan(),
    ensures
        max == a || max == b,
        max.at_least(a) && max.at_least(b),
        min == a || min == b,
        a.at_least(min) && b.at_least(min),
        b.at_least(a) ==> held.at_least(a) && b.at_least(held),
        c.at_least(a) && b.at_least(c) ==> held == c,
        a.above(c) ==> held == a,
        b.at_least(a) && c.above(b) ==> held == b,
{
}

/// Where one of two is not a number, the larger and the smaller are the other.
pub proof fn law_what_is_no_number_is_passed_over(a: Level, b: Level, max: Level, min: Level)
    requires
        call_ensures(Level::max, (a, b), max),
        call_ensures(Level::min, (a, b), min),
    ensures
        a.nan() ==> max == b && min == b,
        b.nan() && !a.nan() ==> max == a && min == a,
{
}

/// Without its sign a number keeps its other bits.
pub proof fn law_only_the_sign_goes(l: Level, r: Level)
    requires
        call_ensures(Level::abs, (l,), r),
    ensures
        r.bits < 0x8000_0000,
        r.bits == l.bits || r.bits + 0x8000_0000 == l.bits,
{
}

/// Silence is -90 dB.
pub proof fn law_silence_is_the_same_everywhere(r: Level)
    requires
        call_ensures(Level::silence, (), r),
    ensures
        r.bits == 0xc2b4_0000,
{
}

/// The same of double precision.
pub proof fn law_wide_numbers_compare_by_their_bits(
    a: Wide,
    b: Wide,
    gt: bool,
    finite: bool,
    zero: bool,
)
    requires
        call_ensures(Wide::gt, (a, b), gt),
        call_ensures(Wide::is_finite, (a,), finite),
        call_ensures(Wide::is_zero, (a,), zero),
    ensures
        zero <==> a.bits == 0 || a.bits == 0x8000_0000_0000_0000,
        finite <==> a.bits < 0x7ff0_0000_0000_0000 || 0x8000_0000_0000_0000 <= a.bits
            < 0xfff0_0000_0000_0000,
        a.bits <= 0x7ff0_0000_0000_0000 && b.bits <= 0x7ff0_0000_0000_0000 ==> gt == (a.bits
            > b.bits),
        0x8000_0000_0000_0000 <= a.bits <= 0xfff0_0000_0000_0000 && 0x8000_0000_0000_0000 <= b.bits
            <= 0xfff0_0000_0000_0000 ==> gt == (a.bits < b.bits),
        a.bits <= 0x7ff0_0000_0000_0000 && 0x8000_0000_0000_0000 <= b.bits <= 0xfff0_0000_0000_0000
            ==> gt == !(a.bits == 0 && b.bits == 0x8000_0000_0000_0000),
        0x8000_0000_0000_0000 <= a.bits && b.bits <= 0x7ff0_0000_0000_0000 ==> !gt,
        0x7ff0_0000_0000_0000 < a.bits < 0x8000_0000_0000_0000 || a.bits > 0xfff0_0000_0000_0000
            ==> !gt,
        0x7ff0_0000_0000_0000 < b.bits < 0x8000_0000_0000_0000 || b.bits > 0xfff0_0000_0000_0000
            ==> !gt,
{
}

/// A ranking names every place once; the levels fall along it, and equals keep their order.
pub proof fn law_a_ranking_falls(levels: &Vec<Level>, order: Vec<usize>, i: int, j: int, k: int)
    requires
        all_numbers(levels@),
        call_ensures(order_desc, (levels,), order),
        0 <= i < j < order@.len(),
        0 <= k < levels@.len(),
    ensures
        order@.len() == levels@.len(),
        order@[i] < levels@.len(),
        order@[j] < levels@.len(),
        order@[i] != order@[j],
        exists|w: int| 0 <= w < order@.len() && #[trigger] order@[w] == k,
        levels@[order@[i] as int].at_least(levels@[order@[j] as int]),
        levels@[order@[j] as int].at_least(levels@[order@[i] as int]) ==> order@[i] < order@[j],
{
    assert(ranked_at(order@, k));
    assert(order@[i] < levels@.len() && order@[j] < levels@.len());
    assert(!levels@[order@[i] as int].nan() && !levels@[order@[j] as int].nan());
}

/// A hold is the louder of what was held and what came.
pub proof fn law_a_hold_is_the_louder(hold: Level, new: Level, r: Level)
    requires
        call_ensures(hold_peak, (hold, new), r),
        !hold.nan() && !new.nan(),
    ensures
        r == hold || r == new,
        r.at_least(hold) && r.at_least(new),
{
}

proof fn lemma_loudest(samples: Seq<Level>, n: nat)
    requires
        n <= samples.len(),
    ensures
        !loudest(samples, n).nan(),
        loudest(samples, n) == (Level { bits: 0 }) || exists|k: int|
            0 <= k < n && loudest(samples, n) == (#[trigger] samples[k]).absolute(),
        forall|k: int|
            0 <= k < n ==> !(#[trigger] samples[k]).absolute().above(loudest(samples, n)),
    decreases n,
{
    if n > 0 {
        lemma_loudest(samples, (n - 1) as nat);
        let before = loudest(samples, (n - 1) as nat);
        if loudest(samples, n) == before && before != (Level { bits: 0 }) {
            let k = choose|k: int|
                0 <= k < n - 1 && before == (#[trigger] samples[k]).absolute();
            assert(loudest(samples, n) == samples[k].absolute());
        } else if loudest(samples, n) != before {
            assert(loudest(samples, n) == samples[n - 1].absolute());
        }
    }
}

proof fn lemma_loudest_of_both(left: Seq<Level>, right: Seq<Level>, n: nat)
    requires
        n <= left.len(),
        n <= right.len(),
    ensures
        ({
            let p = loudest_of_both(left, right, n);
            &&& !p.nan()
            &&& p == (Level { bits: 0 }) || exists|k: int|
                0 <= k < n && (p == (#[trigger] left[k]).absolute() || p == right[k].absolute())
            &&& forall|k: int|
                0 <= k < n ==> !(#[trigger] left[k]).absolute().above(p)
            &&& forall|k: int|
                0 <= k < n ==> !(#[trigger] right[k]).absolute().above(p)
        }),
    decreases n,
{
    if n > 0 {
        lemma_loudest_of_both(left, right, (n - 1) as nat);
        let before = loudest_of_both(left, right, (n - 1) as nat);
        let p = loudest_of_both(left, right, n);
        if p == before && before != (Level { bits: 0 }) {
            let k = choose|k: int|
                0 <= k < n - 1 && (before == (#[trigger] left[k]).absolute() || before
                    == right[k].absolute());
            assert(p == left[k].absolute() || p == right[k].absolute());
        } else if p != before {
            assert(p == left[n - 1].absolute() || p == right[n - 1].absolute());
        }
    }
}

/// The peaks of a block are the largest magnitudes: of the left samples, of the right ones, and of
/// all of them.
pub proof fn law_a_block_peaks_at_its_largest_sample(
    left: &Vec<Level>,
    right: &Vec<Level>,
    r: PeakHolds,
    i: int,
)
    requires
        left@.len() == right@.len(),
        call_ensures(block_peaks, (left, right), r),
        0 <= i < left@.len(),
    ensures
        !left@[i].absolute().above(r.left),
        !right@[i].absolute().above(r.right),
        !left@[i].absolute().above(r.value),
        !right@[i].absolute().above(r.value),
        r.left.bits == 0 || exists|k: int|
            0 <= k < left@.len() && r.left == (#[trigger] left@[k]).absolute(),
        r.right.bits == 0 || exists|k: int|
            0 <= k < right@.len() && r.right == (#[trigger] right@[k]).absolute(),
        r.value.bits == 0 || exists|k: int|
            0 <= k < left@.len() && (r.value == (#[trigger] left@[k]).absolute() || r.value
                == right@[k].absolute()),
{
    lemma_loudest(left@, left@.len());
    lemma_loudest(right@, right@.len());
    lemma_loudest_of_both(left@, right@, left@.len());
}

/// Holds start where they are told to, and each takes in its own peak.
pub proof fn law_every_hold_has_its_own_peak(
    start: Level,
    fresh: PeakHolds,
    h: &mut PeakHolds,
    value: Level,
    left: Level,
    right: Level,
    u: (),
)
    requires
        call_ensures(PeakHolds::new, (start,), fresh),
        call_ensures(PeakHolds::update, (h, value, left, right), u),
    ensures
        fresh.value == start && fresh.left == start && fresh.right == start,
        final(h).value == (if value.above(old(h).value) {
            value
        } else {
            old(h).value
        }),
        final(h).left == (if left.above(old(h).left) {
            left
        } else {
            old(h).left
        }),
        final(h).right == (if right.above(old(h).right) {
            right
        } else {
            old(h).right
        }),
{
}

/// Every threshold goes from its strict end to its sensitive one: the contrast from 8 to 3 dB, the
/// flatness from 0.5 to 0.85, the floor from -65 to -85 dB, the score from 4 to 1, the persistence
/// from 20 to 4 frames, the masking floor from -55 to -85 dB and the Q from 6 to 2.
pub proof fn law_every_threshold_has_its_ends<
    L: Fn(Level, Level, Level) -> Level,
    W: Fn(Level) -> u32,
>(sensitivity: Level, lerp: L, whole: W, r: SensitivityThresholds, d: Level)
    requires
        call_ensures(sensitivity_thresholds::<L, W>, (sensitivity, lerp, whole), r),
        !sensitivity.nan(),
        call_ensures(
            Level::clamp,
            (sensitivity, Level { bits: 0 }, Level { bits: 0x3f80_0000 }),
            d,
        ),
    ensures
        call_ensures(
            lerp,
            (Level { bits: 0x4100_0000 }, Level { bits: 0x4040_0000 }, d),
            r.contrast_min_db,
        ),
        call_ensures(
            lerp,
            (Level { bits: 0x3f00_0000 }, Level { bits: 0x3f59_999a }, d),
            r.flatness_max,
        ),
        call_ensures(lerp, (Level { bits: 0xc282_0000 }, Level { bits: 0xc2aa_0000 }, d), r.floor_db),
        call_ensures(lerp, (Level { bits: 0x4080_0000 }, Level { bits: 0x3f80_0000 }, d), r.score_min),
        call_ensures(
            lerp,
            (Level { bits: 0xc25c_0000 }, Level { bits: 0xc2aa_0000 }, d),
            r.masking_floor_db,
        ),
        call_ensures(lerp, (Level { bits: 0x40c0_0000 }, Level { bits: 0x4000_0000 }, d), r.min_q),
        exists|frames: Level| #[trigger]
            call_ensures(
                lerp,
                (Level { bits: 0x41a0_0000 }, Level { bits: 0x4080_0000 }, d),
                frames,
            ) && call_ensures(whole, (frames,), r.persistence_min),
{
    let frames = choose|frames: Level| #[trigger]
        between(lerp, persistence_ends(), sensitivity, frames) && call_ensures(
            whole,
            (frames,),
            r.persistence_min,
        );
    assert(call_ensures(
        lerp,
        (Level { bits: 0x41a0_0000 }, Level { bits: 0x4080_0000 }, d),
        frames,
    ));
}

/// The pre-master stage aims at its target, hears from -50 dB, cuts 24 dB at most and boosts 12 dB
/// at most.
pub proof fn law_the_pre_master_knows_its_limits<L: Fn(Level) -> Level>(
    target_db: Level,
    linear: L,
    r: MasterLevels,
)
    requires
        call_ensures(master_levels::<L>, (target_db, linear), r),
    ensures
        call_ensures(linear, (target_db,), r.target),
        call_ensures(linear, (Level { bits: 0xc248_0000 },), r.gate),
        call_ensures(linear, (Level { bits: 0xc1c0_0000 },), r.max_cut),
        call_ensures(linear, (Level { bits: 0x4140_0000 },), r.max_boost),
{
}

/// A stage that is switched off passes a block as it came; one that is switched on scales every
/// sample of both channels by its gain.
pub proof fn law_the_pre_master_scales_what_passes<
    D: Fn(Level, Level) -> Level,
    S: Fn(Level, Level) -> Level,
>(
    p: &mut PreMaster,
    active: bool,
    measure_samples: u32,
    m: &MasterLevels,
    block: StereoBlock,
    divide: &D,
    scale: &S,
    r: StereoBlock,
    i: int,
)
    requires
        block.left@.len() == block.right@.len(),
        call_ensures(
            PreMaster::master_block::<D, S>,
            (p, active, measure_samples, m, block, divide, scale),
            r,
        ),
        0 <= i < block.left@.len(),
    ensures
        r.left@.len() == block.left@.len(),
        r.right@.len() == block.right@.len(),
        !active ==> r.left@[i] == block.left@[i] && r.right@[i] == block.right@[i],
        active ==> call_ensures(*scale, (block.left@[i], final(p).gain), r.left@[i]),
        active ==> call_ensures(*scale, (block.right@[i], final(p).gain), r.right@[i]),
{
}

/// With the block that completes a measurement the stage turns its target over the largest
/// magnitude it has seen into its gain, held between the most that is cut and boosted.
pub proof fn law_a_complete_measurement_sets_the_gain<
    D: Fn(Level, Level) -> Level,
    S: Fn(Level, Level) -> Level,
>(
    p: &mut PreMaster,
    measure_samples: u32,
    m: &MasterLevels,
    block: StereoBlock,
    divide: &D,
    scale: &S,
    r: StereoBlock,
    i: int,
)
    requires
        block.left@.len() == block.right@.len(),
        call_ensures(
            PreMaster::master_block::<D, S>,
            (p, true, measure_samples, m, block, divide, scale),
            r,
        ),
        old(p).active_prev,
        old(p).gain.bits == 0x3f80_0000,
        0 < block.left@.len() <= u32::MAX,
        old(p).measure_count < measure_samples <= old(p).measure_count + block.left@.len()
            <= u32::MAX,
        final(p).measure_peak.above(m.gate),
        final(p).measure_count > 0,
        0 <= i < block.left@.len(),
    ensures
        !block.left@[i].absolute().above(final(p).measure_peak),
        !block.right@[i].absolute().above(final(p).measure_peak),
        !old(p).measure_peak.above(final(p).measure_peak),
        exists|ratio: Level| #[trigger]
            call_ensures(*divide, (m.target, final(p).measure_peak), ratio) && (m.max_cut.above(ratio)
                ==> final(p).gain == m.max_cut) && (!m.max_cut.above(ratio) && ratio.above(
                m.max_boost,
            ) ==> final(p).gain == m.max_boost) && (!m.max_cut.above(ratio) && !ratio.above(
                m.max_boost,
            ) ==> final(p).gain == ratio),
{
    lemma_loudest_of_both(block.left@, block.right@, block.left@.len());
    assert(crate::pre_master::gain_for(*divide, *m, final(p).measure_peak, final(p).gain));
    let ratio = choose|ratio: Level|
        #![trigger held_ratio(ratio, *m)]
        call_ensures(*divide, (m.target, final(p).measure_peak), ratio) && final(p).gain
            == held_ratio(ratio, *m);
    assert(call_ensures(*divide, (m.target, final(p).measure_peak), ratio));
}

} // verus!
