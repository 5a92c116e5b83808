//! What holds of every block that Aurum masters, and of every message to its editor.

use crate::aurum::{
    chain_plan, has_mono_floor, plan_chain, Aurum, Block, ChainPlan, HarmonicsMode, MonitorMode,
    PeakLevels, TruePeakLimiter,
};
use crate::aurum_chain::{
    aurum_stages, chain_rank, chain_stages, law_the_monitor_comes_last, shaping_stages, stage_where,
    AurumStage,
};
use crate::aurum_editor::{
    edits_for, output_line, AurumEditor, AurumEffects, AurumMeters, AurumMsg, AurumTab,
};
use crate::aurum_panel::{flipped, panel_line, panel_reset, AurumPanel};
use crate::aurum_params::{param_range, AurumParam, AurumParams};
use crate::hold::PeakHolds;
use crate::host::{automate_all, automated_all, gesture_edit, push_edit, Edit, ParamValue};
use crate::knob::Gesture;
use crate::level::Level;
use vstd::prelude::*;
use vstd::string::*;

verus! {

/// The multiband limiter of a block is the modern one exactly where the modern mode is on, as the
/// button of the editor says for the same parameters.
pub proof fn law_the_limiter_is_the_one_the_button_shows(
    p: &AurumParams,
    plan: ChainPlan,
    r: Vec<AurumStage>,
    editor: &AurumEditor,
    label: String,
)
    requires
        call_ensures(plan_chain, (p,), plan),
        call_ensures(chain_stages, (&plan,), r),
        editor.params == *p,
        call_ensures(AurumEditor::limiter_label, (editor,), label),
    ensures
        p.mb_mode ==> r@.contains(AurumStage::LimitBands { classic: false }) && !r@.contains(
            AurumStage::LimitBands { classic: true },
        ) && label@ == "MODERN"@,
        !p.mb_mode ==> r@.contains(AurumStage::LimitBands { classic: true }) && !r@.contains(
            AurumStage::LimitBands { classic: false },
        ) && label@ == "CLASSIC"@,
{
    lemma_stages_have(plan, r);
}

/// Every switch reaches its stage: the clipper and the saturator work on mid and side where that
/// is on, the saturator adds the harmonics that the button shows, the mono floor is there above
/// 1 Hz, and the side signal is heard before the mono signal and that before the stereo signal.
pub proof fn law_every_switch_of_the_chain_reaches_its_stage(
    p: &AurumParams,
    plan: ChainPlan,
    r: Vec<AurumStage>,
    editor: &AurumEditor,
    label: String,
)
    requires
        call_ensures(plan_chain, (p,), plan),
        call_ensures(chain_stages, (&plan,), r),
        editor.params == *p,
        0 <= p.sat_harmonics < 3,
        call_ensures(AurumEditor::harmonics_label, (editor,), label),
    ensures
        r@.contains(AurumStage::Clip { mid_side: p.clip_ms_mode }),
        !r@.contains(AurumStage::Clip { mid_side: !p.clip_ms_mode }),
        r@.contains(AurumStage::Equalise),
        r@.contains(AurumStage::Compress),
        r@.contains(AurumStage::Sweeten),
        r@.contains(AurumStage::Widen),
        r@.contains(AurumStage::TrimRight),
        r@.contains(AurumStage::OutputGain),
        r@.contains(AurumStage::LimitTruePeaks),
        r@.contains(AurumStage::MonoFloor) <==> p.mono_floor.above(Level { bits: 0x3f80_0000 }),
        r@.contains(AurumStage::Delta) <==> p.delta_active,
        r@.contains(AurumStage::Monitor(MonitorMode::Side)) <==> p.side_active,
        r@.contains(AurumStage::Monitor(MonitorMode::Mono)) <==> p.mono_active && !p.side_active,
        !r@.contains(AurumStage::Monitor(MonitorMode::Stereo)),
        p.sat_harmonics == 0 ==> label@ == "EVEN"@ && r@.contains(
            AurumStage::Saturate { mid_side: p.sat_ms_mode, harmonics: HarmonicsMode::Even },
        ),
        p.sat_harmonics == 1 ==> label@ == "ODD"@ && r@.contains(
            AurumStage::Saturate { mid_side: p.sat_ms_mode, harmonics: HarmonicsMode::Odd },
        ),
        p.sat_harmonics == 2 ==> label@ == "MIXED"@ && r@.contains(
            AurumStage::Saturate { mid_side: p.sat_ms_mode, harmonics: HarmonicsMode::Mixed },
        ),
{
    lemma_stages_have(plan, r);
}

/// The thresholds of a block are those set; linked, the upper ones follow the lowest.  The
/// tolerances count where they are on.
pub proof fn law_thresholds_are_those_set(p: &AurumParams, plan: ChainPlan)
    requires
        call_ensures(plan_chain, (p,), plan),
    ensures
        plan.comp_thresh_lo == p.comp_thresh_lo,
        !p.comp_link ==> plan.comp_thresh_hi == p.comp_thresh_hi,
        p.comp_link ==> plan.comp_thresh_hi == p.comp_thresh_lo,
        plan.mb_thresh_lo == p.mb_thresh_mid_lo,
        !p.mb_fader_link ==> plan.mb_thresh_hi == p.mb_thresh_mid_hi && plan.mb_thresh_side
            == p.mb_thresh_side,
        p.mb_fader_link ==> plan.mb_thresh_hi == p.mb_thresh_mid_lo && plan.mb_thresh_side
            == p.mb_thresh_mid_lo,
        p.at_active ==> plan.tolerance == Some(p.at_amount),
        !p.at_active ==> plan.tolerance is None,
{
}

proof fn lemma_joined(a: Seq<AurumStage>, b: Seq<AurumStage>, y: AurumStage)
    ensures
        (a + b).contains(y) <==> a.contains(y) || b.contains(y),
{
    let s = a + b;
    if a.contains(y) {
        let w = choose|w: int| 0 <= w < a.len() && a[w] == y;
        assert(s[w] == y);
    }
    if b.contains(y) {
        let w = choose|w: int| 0 <= w < b.len() && b[w] == y;
        assert(s[a.len() + w] == y);
    }
    if s.contains(y) {
        let w = choose|w: int| 0 <= w < s.len() && s[w] == y;
        if w < a.len() {
            assert(a[w] == y);
        } else {
            assert(b[w - a.len()] == y);
        }
    }
}

proof fn lemma_where_has(on: bool, x: AurumStage, y: AurumStage)
    ensures
        stage_where(on, x).contains(y) <==> on && x == y,
{
    if on {
        assert(stage_where(on, x)[0] == x);
    }
}

proof fn lemma_shaping_has(p: ChainPlan, y: AurumStage)
    ensures
        shaping_stages(p).contains(y) <==> match y {
            AurumStage::Clip { mid_side } => mid_side == p.clip_ms,
            AurumStage::Equalise => true,
            AurumStage::Compress => true,
            AurumStage::Sweeten => true,
            AurumStage::Saturate { mid_side, harmonics } => mid_side == p.sat_ms && harmonics
                == p.harmonics,
            AurumStage::Widen => true,
            AurumStage::LimitBands { classic } => classic == p.mb_classic,
            AurumStage::TrimRight => true,
            _ => false,
        },
{
    let s = shaping_stages(p);
    assert(s.len() == 8);
    assert(s[0] == AurumStage::Clip { mid_side: p.clip_ms });
    assert(s[1] == AurumStage::Equalise);
    assert(s[2] == AurumStage::Compress);
    assert(s[3] == AurumStage::Sweeten);
    assert(s[4] == AurumStage::Saturate { mid_side: p.sat_ms, harmonics: p.harmonics });
    assert(s[5] == AurumStage::Widen);
    assert(s[6] == AurumStage::LimitBands { classic: p.mb_classic });
    assert(s[7] == AurumStage::TrimRight);
    if s.contains(y) {
        let w = choose|w: int| 0 <= w < s.len() && s[w] == y;
        assert(w == 0 || w == 1 || w == 2 || w == 3 || w == 4 || w == 5 || w == 6 || w == 7);
    }
}

proof fn lemma_stages_have(p: ChainPlan, r: Vec<AurumStage>)
    requires
        call_ensures(chain_stages, (&p,), r),
    ensures
        forall|y: AurumStage| #[trigger]
            r@.contains(y) <==> match y {
                AurumStage::Clip { mid_side } => mid_side == p.clip_ms,
                AurumStage::Saturate { mid_side, harmonics } => mid_side == p.sat_ms && harmonics
                    == p.harmonics,
                AurumStage::LimitBands { classic } => classic == p.mb_classic,
                AurumStage::MonoFloor => p.mono_floor,
                AurumStage::Monitor(m) => m == p.monitor && m != MonitorMode::Stereo,
                AurumStage::Delta => p.delta,
                _ => true,
            },
{
    let a = shaping_stages(p);
    let b = stage_where(p.mono_floor, AurumStage::MonoFloor);
    let c = seq![AurumStage::OutputGain, AurumStage::LimitTruePeaks];
    let d = stage_where(p.monitor != MonitorMode::Stereo, AurumStage::Monitor(p.monitor));
    let e = stage_where(p.delta, AurumStage::Delta);
    assert forall|y: AurumStage| #[trigger]
        r@.contains(y) <==> match y {
            AurumStage::Clip { mid_side } => mid_side == p.clip_ms,
            AurumStage::Saturate { mid_side, harmonics } => mid_side == p.sat_ms && harmonics
                == p.harmonics,
            AurumStage::LimitBands { classic } => classic == p.mb_classic,
            AurumStage::MonoFloor => p.mono_floor,
            AurumStage::Monitor(m) => m == p.monitor && m != MonitorMode::Stereo,
            AurumStage::Delta => p.delta,
            _ => true,
        } by {
        lemma_joined(a + b + c + d, e, y);
        lemma_joined(a + b + c, d, y);
        lemma_joined(a + b, c, y);
        lemma_joined(a, b, y);
        lemma_shaping_has(p, y);
        lemma_where_has(p.mono_floor, AurumStage::MonoFloor, y);
        lemma_where_has(p.monitor != MonitorMode::Stereo, AurumStage::Monitor(p.monitor), y);
        lemma_where_has(p.delta, AurumStage::Delta, y);
        assert(c[0] == AurumStage::OutputGain && c[1] == AurumStage::LimitTruePeaks);
        if c.contains(y) {
            let w = choose|w: int| 0 <= w < c.len() && c[w] == y;
            assert(w == 0 || w == 1);
        }
    }
}

/// The place of a stage on the way through Aurum.
pub open spec fn chain_place(s: AurumStage) -> int {
    match s {
        AurumStage::Clip { mid_side } => 1,
        AurumStage::Equalise => 2,
        AurumStage::Compress => 3,
        AurumStage::Sweeten => 4,
        AurumStage::Saturate { mid_side, harmonics } => 5,
        AurumStage::Widen => 6,
        AurumStage::LimitBands { classic } => 7,
        AurumStage::TrimRight => 8,
        AurumStage::MonoFloor => 9,
        AurumStage::OutputGain => 10,
        AurumStage::LimitTruePeaks => 11,
        AurumStage::Monitor(m) => 12,
        AurumStage::Delta => 13,
    }
}

/// The stages come in the order of the chain, none of them twice.
pub proof fn law_the_stages_come_in_the_order_of_the_chain(
    plan: &ChainPlan,
    r: Vec<AurumStage>,
    i: int,
    j: int,
)
    requires
        call_ensures(chain_stages, (plan,), r),
        0 <= i < j < r@.len(),
    ensures
        chain_place(r@[i]) < chain_place(r@[j]),
{
    assert(r@ == aurum_stages(*plan));
    law_the_monitor_comes_last(*plan, i, j);
    let x = r@[i];
    let y = r@[j];
    assert(chain_rank(x) + 1 == chain_place(x));
    assert(chain_rank(y) + 1 == chain_place(y));
}

/// There is a mono floor above 1 Hz.
pub proof fn law_the_mono_floor_starts_above_one(freq: Level, r: bool)
    requires
        call_ensures(has_mono_floor, (freq,), r),
    ensures
        r <==> freq.above(Level { bits: 0x3f80_0000 }),
{
}

/// A limiter never raises its gain for a peak: it stays for one below the ceiling, and for one
/// above goes down to what brings it to the ceiling.  Every sample and every value between
/// counts, of whatever sign, and the last samples are left for the release.
pub proof fn law_the_limiter_holds_the_ceiling<R: Fn(Level, Level) -> Level>(
    t: &mut TruePeakLimiter,
    l: Level,
    r: Level,
    mid_l: Level,
    mid_r: Level,
    ceiling: Level,
    ratio: R,
    gain: Level,
)
    requires
        (Level { bits: 0x3f80_0000 }).at_least(old(t).gain),
        !l.nan() && !r.nan() && !mid_l.nan() && !mid_r.nan(),
        call_ensures(TruePeakLimiter::attack::<R>, (t, l, r, mid_l, mid_r, ceiling, ratio), gain),
    ensures
        final(t).gain == gain,
        final(t).prev_l == old(t).prev_l,
        final(t).prev_r == old(t).prev_r,
        old(t).gain.at_least(gain),
        !l.absolute().above(ceiling) && !r.absolute().above(ceiling) && !mid_l.absolute().above(
            ceiling,
        ) && !mid_r.absolute().above(ceiling) ==> gain == old(t).gain,
        l.absolute().above(ceiling) || r.absolute().above(ceiling) || mid_l.absolute().above(
            ceiling,
        ) || mid_r.absolute().above(ceiling) ==> exists|peak: Level, q: Level|
            {
                &&& #[trigger] call_ensures(ratio, (ceiling, peak), q)
                &&& peak == l.absolute() || peak == r.absolute() || peak == mid_l.absolute()
                    || peak == mid_r.absolute()
                &&& peak.at_least(l.absolute()) && peak.at_least(r.absolute())
                &&& peak.at_least(mid_l.absolute()) && peak.at_least(mid_r.absolute())
                &&& q.above(old(t).gain) ==> gain == old(t).gain
                &&& old(t).gain.above(q) ==> gain == q
            },
{
    let peak = crate::aurum::true_peak_of(l, r, mid_l, mid_r);
    assert(TruePeakLimiter::attacked(old(t).gain, peak, ceiling, ratio, gain));
    assert(peak == l.absolute() || peak == r.absolute() || peak == mid_l.absolute() || peak
        == mid_r.absolute());
}

/// The gain of the limiter recovers, though not past one, and the samples that left are kept.
pub proof fn law_the_limiter_recovers_to_one<G: Fn(Level) -> Level>(
    t: &mut TruePeakLimiter,
    l: Level,
    r: Level,
    relax: G,
    u: (),
)
    requires
        call_ensures(TruePeakLimiter::release::<G>, (t, l, r, relax), u),
    ensures
        final(t).prev_l == l,
        final(t).prev_r == r,
        exists|g: Level| #[trigger]
            call_ensures(relax, (old(t).gain,), g) && ((Level { bits: 0x3f80_0000 }).at_least(g)
                ==> final(t).gain == g) && (!(Level { bits: 0x3f80_0000 }).at_least(g) ==> final(t).gain.bits == 0x3f80_0000),
{
}

/// A new limiter lets everything through.
pub proof fn law_a_new_limiter_lets_everything_through(t: TruePeakLimiter)
    requires
        call_ensures(TruePeakLimiter::new, (), t),
    ensures
        t.gain.bits == 0x3f80_0000 && t.prev_l.bits == 0 && t.prev_r.bits == 0,
{
}

/// A bypassed block is let through and leaves the peaks alone; without two channels or without
/// samples there is nothing to do; any other block runs the chain as it is set.
pub proof fn law_a_block_runs_unless_bypassed(
    a: &mut Aurum,
    reset: bool,
    channels: usize,
    samples: usize,
    r: Block,
)
    requires
        call_ensures(Aurum::begin_block, (a, reset, channels, samples), r),
    ensures
        r == Block::Bypassed <==> old(a).params.bypass_active,
        r == Block::Skipped <==> !old(a).params.bypass_active && (channels < 2 || samples == 0),
        r is Run <==> !old(a).params.bypass_active && channels >= 2 && samples > 0,
        r matches Block::Run(plan) ==> plan == chain_plan(old(a).params),
        final(a).params == old(a).params,
        final(a).sample_rate == old(a).sample_rate,
        reset && !old(a).params.bypass_active ==> final(a).holds.value.bits == 0xc2b4_0000 && final(a).holds.left.bits == 0xc2b4_0000 && final(a).holds.right.bits == 0xc2b4_0000 && final(a).limiter.gain.bits == 0x3f80_0000 && final(a).limiter.prev_l.bits == 0 && final(a).limiter.prev_r.bits == 0,
        !reset || old(a).params.bypass_active ==> final(a).holds == old(a).holds && final(a).limiter
            == old(a).limiter,
{
}

/// The meters of a block: each peak is metered on its own, -90 dB where it is below 1e-9, and each
/// hold keeps the louder of what it had and of its own level.
pub proof fn law_the_meters_keep_their_channels<D: Fn(Level) -> Level>(
    a: &mut Aurum,
    peaks: PeakHolds,
    to_db: D,
    r: PeakLevels,
)
    requires
        call_ensures(Aurum::end_block::<D>, (a, peaks, to_db), r),
        !old(a).holds.value.nan(),
    ensures
        (Level { bits: 0x3089_705f }).above(peaks.value) ==> r.both.bits == 0xc2b4_0000,
        !(Level { bits: 0x3089_705f }).above(peaks.value) ==> call_ensures(
            to_db,
            (peaks.value,),
            r.both,
        ),
        (Level { bits: 0x3089_705f }).above(peaks.left) ==> r.left.bits == 0xc2b4_0000,
        !(Level { bits: 0x3089_705f }).above(peaks.left) ==> call_ensures(
            to_db,
            (peaks.left,),
            r.left,
        ),
        (Level { bits: 0x3089_705f }).above(peaks.right) ==> r.right.bits == 0xc2b4_0000,
        !(Level { bits: 0x3089_705f }).above(peaks.right) ==> call_ensures(
            to_db,
            (peaks.right,),
            r.right,
        ),
        r.both.above(old(a).holds.value) ==> final(a).holds.value == r.both,
        !r.both.above(old(a).holds.value) ==> final(a).holds.value == old(a).holds.value,
        r.left.above(old(a).holds.left) ==> final(a).holds.left == r.left,
        !r.left.above(old(a).holds.left) ==> final(a).holds.left == old(a).holds.left,
        r.right.above(old(a).holds.right) ==> final(a).holds.right == r.right,
        !r.right.above(old(a).holds.right) ==> final(a).holds.right == old(a).holds.right,
        final(a).params == old(a).params,
        final(a).limiter == old(a).limiter,
{
}

/// There is a balance where the powers are above 1e-9.
pub proof fn law_there_is_a_balance_with_a_signal(total: Level, r: bool)
    requires
        call_ensures(Aurum::has_balance, (total,), r),
    ensures
        r <==> total.above(Level { bits: 0x3089_705f }),
{
}

/// A step of a gesture is one call: its start begins a change, every value changes, its end ends.
pub proof fn law_a_gesture_is_one_change<P>(p: P, v: Level, a: Edit<P>, b: Edit<P>, c: Edit<P>)
    requires
        call_ensures(gesture_edit::<P>, (p, Gesture::Start), a),
        call_ensures(gesture_edit::<P>, (p, Gesture::Change(v)), b),
        call_ensures(gesture_edit::<P>, (p, Gesture::End), c),
    ensures
        a == Edit::Begin(p),
        b == Edit::Change(p, ParamValue::Number(v)),
        c == Edit::End(p),
{
}

/// The calls of the change at a place stand together, three for each change.
pub proof fn lemma_automated_all<P>(list: Seq<(P, ParamValue)>, i: int)
    requires
        0 <= i < list.len(),
    ensures
        automated_all(list).len() == 3 * list.len(),
        automated_all(list)[3 * i] == Edit::<P>::Begin(list[i].0),
        automated_all(list)[3 * i + 1] == Edit::<P>::Change(list[i].0, list[i].1),
        automated_all(list)[3 * i + 2] == Edit::<P>::End(list[i].0),
    decreases list.len(),
{
    let rest = list.drop_last();
    if rest.len() == 0 {
        assert(automated_all(rest).len() == 0);
    } else {
        lemma_automated_all(rest, 0);
    }
    if i < rest.len() {
        lemma_automated_all(rest, i);
        assert(rest[i] == list[i]);
    }
}

/// A list of changes is made one after the other: each is begun, made and ended before the next.
pub proof fn law_changes_are_made_one_by_one<P: Copy>(
    list: &Vec<(P, ParamValue)>,
    r: Vec<Edit<P>>,
    i: int,
)
    requires
        call_ensures(automate_all::<P>, (list,), r),
        0 <= i < list@.len(),
    ensures
        r@.len() == 3 * list@.len(),
        r@[3 * i] == Edit::<P>::Begin(list@[i].0),
        r@[3 * i + 1] == Edit::<P>::Change(list@[i].0, list@[i].1),
        r@[3 * i + 2] == Edit::<P>::End(list@[i].0),
{
    lemma_automated_all(list@, i);
}

/// A change is appended as three calls: its begin, the change and its end.
pub proof fn law_a_change_is_begun_made_and_ended<P: Copy>(
    edits: &mut Vec<Edit<P>>,
    p: P,
    v: ParamValue,
    u: (),
)
    requires
        call_ensures(push_edit::<P>, (edits, p, v), u),
    ensures
        final(edits)@.len() == old(edits)@.len() + 3,
        forall|i: int| 0 <= i < old(edits)@.len() ==> final(edits)@[i] == #[trigger] old(edits)@[i],
        final(edits)@[old(edits)@.len() as int] == Edit::<P>::Begin(p),
        final(edits)@[old(edits)@.len() as int + 1] == Edit::<P>::Change(p, v),
        final(edits)@[old(edits)@.len() as int + 2] == Edit::<P>::End(p),
{
}

/// Every knob turns its own parameter.
pub proof fn law_every_knob_turns_its_parameter(
    e: &mut AurumEditor,
    m: AurumMsg,
    meters: AurumMeters,
    r: AurumEffects,
    g: Gesture,
)
    requires
        call_ensures(AurumEditor::update, (e, m, meters), r),
    ensures
        m == AurumMsg::AtAmountGesture(g) ==> r.edits@ == turned(AurumParam::AtAmount, g),
        m == AurumMsg::OutputGainGesture(g) ==> r.edits@ == turned(AurumParam::OutputGain, g),
        m == AurumMsg::StereoWidthGesture(g) ==> r.edits@ == turned(AurumParam::StereoWidth, g),
        m == AurumMsg::MonoFloorGesture(g) ==> r.edits@ == turned(AurumParam::MonoFloor, g),
        m == AurumMsg::ClipCeilGesture(g) ==> r.edits@ == turned(AurumParam::ClipCeiling, g),
        m == AurumMsg::ClipSoftGesture(g) ==> r.edits@ == turned(AurumParam::ClipSoftness, g),
        m == AurumMsg::EqMLoShGesture(g) ==> r.edits@ == turned(AurumParam::EqMLoShelf, g),
        m == AurumMsg::EqMLoMiGesture(g) ==> r.edits@ == turned(AurumParam::EqMLoMid, g),
        m == AurumMsg::EqMHiMiGesture(g) ==> r.edits@ == turned(AurumParam::EqMHiMid, g),
        m == AurumMsg::EqMHiShGesture(g) ==> r.edits@ == turned(AurumParam::EqMHiShelf, g),
        m == AurumMsg::EqSLoShGesture(g) ==> r.edits@ == turned(AurumParam::EqSLoShelf, g),
        m == AurumMsg::EqSLoMiGesture(g) ==> r.edits@ == turned(AurumParam::EqSLoMid, g),
        m == AurumMsg::EqSHiMiGesture(g) ==> r.edits@ == turned(AurumParam::EqSHiMid, g),
        m == AurumMsg::EqSHiShGesture(g) ==> r.edits@ == turned(AurumParam::EqSHiShelf, g),
        m == AurumMsg::CompSplitGesture(g) ==> r.edits@ == turned(AurumParam::CompSplit, g),
        m == AurumMsg::CompThrLoGesture(g) ==> r.edits@ == turned(AurumParam::CompThreshLo, g),
        m == AurumMsg::CompThrHiGesture(g) ==> r.edits@ == turned(AurumParam::CompThreshHi, g),
        m == AurumMsg::CompRatioGesture(g) ==> r.edits@ == turned(AurumParam::CompRatio, g),
        m == AurumMsg::CompAtkGesture(g) ==> r.edits@ == turned(AurumParam::CompAttack, g),
        m == AurumMsg::CompRelGesture(g) ==> r.edits@ == turned(AurumParam::CompRelease, g),
        m == AurumMsg::CompMixGesture(g) ==> r.edits@ == turned(AurumParam::CompMix, g),
        m == AurumMsg::SweetHpfGesture(g) ==> r.edits@ == turned(AurumParam::SweetHpf, g),
        m == AurumMsg::SweetLpfGesture(g) ==> r.edits@ == turned(AurumParam::SweetLpf, g),
        m == AurumMsg::SweetLoGesture(g) ==> r.edits@ == turned(AurumParam::SweetLoShelf, g),
        m == AurumMsg::SweetHiGesture(g) ==> r.edits@ == turned(AurumParam::SweetHiShelf, g),
        m == AurumMsg::SatDrvStGesture(g) ==> r.edits@ == turned(AurumParam::SatDriveStereo, g),
        m == AurumMsg::SatDrvMiGesture(g) ==> r.edits@ == turned(AurumParam::SatDriveMid, g),
        m == AurumMsg::SatDrvSiGesture(g) ==> r.edits@ == turned(AurumParam::SatDriveSide, g),
        m == AurumMsg::SatMixGesture(g) ==> r.edits@ == turned(AurumParam::SatMix, g),
        m == AurumMsg::MbXoverGesture(g) ==> r.edits@ == turned(AurumParam::MbCrossover, g),
        m == AurumMsg::MbThrLoGesture(g) ==> r.edits@ == turned(AurumParam::MbThreshMidLo, g),
        m == AurumMsg::MbThrHiGesture(g) ==> r.edits@ == turned(AurumParam::MbThreshMidHi, g),
        m == AurumMsg::MbThrSiGesture(g) ==> r.edits@ == turned(AurumParam::MbThreshSide, g),
        m == AurumMsg::MbGainLoGesture(g) ==> r.edits@ == turned(AurumParam::MbGainMidLo, g),
        m == AurumMsg::MbGainHiGesture(g) ==> r.edits@ == turned(AurumParam::MbGainMidHi, g),
        m == AurumMsg::MbGainSiGesture(g) ==> r.edits@ == turned(AurumParam::MbGainSide, g),
        m == AurumMsg::MbAtkLoGesture(g) ==> r.edits@ == turned(AurumParam::MbAttackMidLo, g),
        m == AurumMsg::MbAtkHiGesture(g) ==> r.edits@ == turned(AurumParam::MbAttackMidHi, g),
        m == AurumMsg::MbAtkSiGesture(g) ==> r.edits@ == turned(AurumParam::MbAttackSide, g),
        m == AurumMsg::MbRelLoGesture(g) ==> r.edits@ == turned(AurumParam::MbReleaseMidLo, g),
        m == AurumMsg::MbRelHiGesture(g) ==> r.edits@ == turned(AurumParam::MbReleaseMidHi, g),
        m == AurumMsg::MbRelSiGesture(g) ==> r.edits@ == turned(AurumParam::MbReleaseSide, g),
        m == AurumMsg::MbGainGesture(g) ==> r.edits@ == turned(AurumParam::MbGlobalGain, g),
        m == AurumMsg::MbThrOffGesture(g) ==> r.edits@ == turned(AurumParam::MbGlobalThresh, g),
        m == AurumMsg::LimCeilGesture(g) ==> r.edits@ == turned(AurumParam::LimCeiling, g),
        m == AurumMsg::LimRelGesture(g) ==> r.edits@ == turned(AurumParam::LimRelease, g),
{
    assert(r.edits@ == edits_for(old(e).params, m));
}

/// The calls that a step of a gesture makes on a parameter.
pub open spec fn turned(p: AurumParam, g: Gesture) -> Seq<Edit<AurumParam>> {
    match g {
        Gesture::Start => seq![Edit::Begin(p)],
        Gesture::Change(v) => seq![Edit::Change(p, ParamValue::Number(v))],
        Gesture::End => seq![Edit::End(p)],
    }
}

/// The calls that flip a switch.
pub open spec fn switched(p: AurumParam, on: bool) -> Seq<Edit<AurumParam>> {
    seq![Edit::Begin(p), Edit::Change(p, ParamValue::Switch(on)), Edit::End(p)]
}

/// Every button flips its own switch: on where it is off, and off where it is on.
pub proof fn law_every_button_flips_its_switch(
    e: &mut AurumEditor,
    m: AurumMsg,
    meters: AurumMeters,
    r: AurumEffects,
)
    requires
        call_ensures(AurumEditor::update, (e, m, meters), r),
    ensures
        m == AurumMsg::SideToggled ==> r.edits@ == switched(
            AurumParam::SideActive,
            !old(e).params.side_active,
        ),
        m == AurumMsg::MonoToggled ==> r.edits@ == switched(
            AurumParam::MonoActive,
            !old(e).params.mono_active,
        ),
        m == AurumMsg::DeltaToggled ==> r.edits@ == switched(
            AurumParam::DeltaActive,
            !old(e).params.delta_active,
        ),
        m == AurumMsg::BypassToggled ==> r.edits@ == switched(
            AurumParam::BypassActive,
            !old(e).params.bypass_active,
        ),
        m == AurumMsg::AtToggled ==> r.edits@ == switched(
            AurumParam::AtActive,
            !old(e).params.at_active,
        ),
        m == AurumMsg::ClipMsToggled ==> r.edits@ == switched(
            AurumParam::ClipMsMode,
            !old(e).params.clip_ms_mode,
        ),
        m == AurumMsg::CompLinkToggled ==> r.edits@ == switched(
            AurumParam::CompLink,
            !old(e).params.comp_link,
        ),
        m == AurumMsg::SatMsToggled ==> r.edits@ == switched(
            AurumParam::SatMsMode,
            !old(e).params.sat_ms_mode,
        ),
        m == AurumMsg::MbLinkToggled ==> r.edits@ == switched(
            AurumParam::MbFaderLink,
            !old(e).params.mb_fader_link,
        ),
        m == AurumMsg::MbModeToggled ==> r.edits@ == switched(
            AurumParam::MbMode,
            !old(e).params.mb_mode,
        ),
{
    assert(r.edits@ == edits_for(old(e).params, m));
}

/// The other messages: a tick only shows the meters, a tab is selected, the harmonics go round,
/// and the held peaks start again with a reset of them or of all.
pub proof fn law_other_messages_do_what_they_say(
    e: &mut AurumEditor,
    m: AurumMsg,
    meters: AurumMeters,
    r: AurumEffects,
)
    requires
        call_ensures(AurumEditor::update, (e, m, meters), r),
        0 <= old(e).params.sat_harmonics < 3,
    ensures
        final(e).params == old(e).params,
        m == AurumMsg::Tick ==> r.edits@.len() == 0 && final(e).meters == meters,
        m != AurumMsg::Tick ==> final(e).meters == old(e).meters,
        m is SelectTab ==> r.edits@.len() == 0 && AurumMsg::SelectTab(final(e).selected_tab) == m,
        !(m is SelectTab) ==> final(e).selected_tab == old(e).selected_tab,
        r.reset_peak <==> m == AurumMsg::ResetPeak || m == AurumMsg::ResetAll,
        m == AurumMsg::ResetPeak ==> r.edits@.len() == 0,
        m == AurumMsg::SatHarmCycled ==> r.edits@ == seq![
            Edit::Begin(AurumParam::SatHarmonics),
            Edit::Change(
                AurumParam::SatHarmonics,
                ParamValue::Choice(
                    if old(e).params.sat_harmonics == 2 {
                        0
                    } else {
                        (old(e).params.sat_harmonics + 1) as i32
                    },
                ),
            ),
            Edit::End(AurumParam::SatHarmonics),
        ],
{
    assert(r.edits@ == edits_for(old(e).params, m));
}

/// A reset of all brings the clipper, the thresholds of the multiband limiter, the gain and the
/// width back to where a new plugin has them.
pub proof fn law_a_reset_of_all_is_the_start(
    e: &mut AurumEditor,
    meters: AurumMeters,
    r: AurumEffects,
    start: AurumParams,
    i: int,
)
    requires
        call_ensures(AurumEditor::update, (e, AurumMsg::ResetAll, meters), r),
        call_ensures(AurumParams::new, (), start),
        0 <= i < 6,
    ensures
        r.edits@.len() == 18,
        ({
            let p = seq![
                AurumParam::ClipCeiling,
                AurumParam::MbThreshMidLo,
                AurumParam::MbThreshMidHi,
                AurumParam::MbThreshSide,
                AurumParam::OutputGain,
                AurumParam::StereoWidth,
            ][i];
            &&& r.edits@[3 * i] == Edit::Begin(p)
            &&& r.edits@[3 * i + 1] == Edit::Change(p, start.at(p))
            &&& r.edits@[3 * i + 2] == Edit::End(p)
        }),
{
    assert(r.edits@ == edits_for(old(e).params, AurumMsg::ResetAll));
    let all = crate::aurum_editor::reset_changes();
    lemma_automated_all(all, i);
    assert(start.at(all[i].0) == crate::aurum_params::start_value(all[i].0));
    crate::aurum_editor::law_a_reset_goes_to_the_start(i);
}

/// Reading a parameter gives its own field.
pub proof fn law_reading_a_parameter_gives_its_field(
    a: &AurumParams,
    p: AurumParam,
    r: ParamValue,
)
    requires
        call_ensures(AurumParams::get, (a, p), r),
    ensures
        p == AurumParam::SideActive ==> r == ParamValue::Switch(a.side_active),
        p == AurumParam::MonoActive ==> r == ParamValue::Switch(a.mono_active),
        p == AurumParam::DeltaActive ==> r == ParamValue::Switch(a.delta_active),
        p == AurumParam::BypassActive ==> r == ParamValue::Switch(a.bypass_active),
        p == AurumParam::AtActive ==> r == ParamValue::Switch(a.at_active),
        p == AurumParam::AtAmount ==> r == ParamValue::Number(a.at_amount),
        p == AurumParam::OutputGain ==> r == ParamValue::Number(a.output_gain),
        p == AurumParam::StereoWidth ==> r == ParamValue::Number(a.stereo_width),
        p == AurumParam::MonoFloor ==> r == ParamValue::Number(a.mono_floor),
        p == AurumParam::ClipCeiling ==> r == ParamValue::Number(a.clip_ceiling),
        p == AurumParam::ClipSoftness ==> r == ParamValue::Number(a.clip_softness),
        p == AurumParam::ClipMsMode ==> r == ParamValue::Switch(a.clip_ms_mode),
        p == AurumParam::EqMLoShelf ==> r == ParamValue::Number(a.eq_m_lo_shelf),
        p == AurumParam::EqMLoMid ==> r == ParamValue::Number(a.eq_m_lo_mid),
        p == AurumParam::EqMHiMid ==> r == ParamValue::Number(a.eq_m_hi_mid),
        p == AurumParam::EqMHiShelf ==> r == ParamValue::Number(a.eq_m_hi_shelf),
        p == AurumParam::EqSLoShelf ==> r == ParamValue::Number(a.eq_s_lo_shelf),
        p == AurumParam::EqSLoMid ==> r == ParamValue::Number(a.eq_s_lo_mid),
        p == AurumParam::EqSHiMid ==> r == ParamValue::Number(a.eq_s_hi_mid),
        p == AurumParam::EqSHiShelf ==> r == ParamValue::Number(a.eq_s_hi_shelf),
        p == AurumParam::CompSplit ==> r == ParamValue::Number(a.comp_split),
        p == AurumParam::CompLink ==> r == ParamValue::Switch(a.comp_link),
        p == AurumParam::CompThreshLo ==> r == ParamValue::Number(a.comp_thresh_lo),
        p == AurumParam::CompThreshHi ==> r == ParamValue::Number(a.comp_thresh_hi),
        p == AurumParam::CompRatio ==> r == ParamValue::Number(a.comp_ratio),
        p == AurumParam::CompAttack ==> r == ParamValue::Number(a.comp_attack),
        p == AurumParam::CompRelease ==> r == ParamValue::Number(a.comp_release),
        p == AurumParam::CompMix ==> r == ParamValue::Number(a.comp_mix),
        p == AurumParam::SweetHpf ==> r == ParamValue::Number(a.sweet_hpf),
        p == AurumParam::SweetLpf ==> r == ParamValue::Number(a.sweet_lpf),
        p == AurumParam::SweetLoShelf ==> r == ParamValue::Number(a.sweet_lo_shelf),
        p == AurumParam::SweetHiShelf ==> r == ParamValue::Number(a.sweet_hi_shelf),
        p == AurumParam::MbCrossover ==> r == ParamValue::Number(a.mb_crossover),
        p == AurumParam::MbThreshMidLo ==> r == ParamValue::Number(a.mb_thresh_mid_lo),
        p == AurumParam::MbThreshMidHi ==> r == ParamValue::Number(a.mb_thresh_mid_hi),
        p == AurumParam::MbThreshSide ==> r == ParamValue::Number(a.mb_thresh_side),
        p == AurumParam::MbGainMidLo ==> r == ParamValue::Number(a.mb_gain_mid_lo),
        p == AurumParam::MbGainMidHi ==> r == ParamValue::Number(a.mb_gain_mid_hi),
        p == AurumParam::MbGainSide ==> r == ParamValue::Number(a.mb_gain_side),
        p == AurumParam::MbAttackMidLo ==> r == ParamValue::Number(a.mb_attack_mid_lo),
        p == AurumParam::MbAttackMidHi ==> r == ParamValue::Number(a.mb_attack_mid_hi),
        p == AurumParam::MbAttackSide ==> r == ParamValue::Number(a.mb_attack_side),
        p == AurumParam::MbReleaseMidLo ==> r == ParamValue::Number(a.mb_release_mid_lo),
        p == AurumParam::MbReleaseMidHi ==> r == ParamValue::Number(a.mb_release_mid_hi),
        p == AurumParam::MbReleaseSide ==> r == ParamValue::Number(a.mb_release_side),
        p == AurumParam::MbFaderLink ==> r == ParamValue::Switch(a.mb_fader_link),
        p == AurumParam::MbGlobalGain ==> r == ParamValue::Number(a.mb_global_gain),
        p == AurumParam::MbGlobalThresh ==> r == ParamValue::Number(a.mb_global_thresh),
        p == AurumParam::MbMode ==> r == ParamValue::Switch(a.mb_mode),
        p == AurumParam::LimCeiling ==> r == ParamValue::Number(a.lim_ceiling),
        p == AurumParam::LimRelease ==> r == ParamValue::Number(a.lim_release),
        p == AurumParam::SatMsMode ==> r == ParamValue::Switch(a.sat_ms_mode),
        p == AurumParam::SatDriveStereo ==> r == ParamValue::Number(a.sat_drive_stereo),
        p == AurumParam::SatDriveMid ==> r == ParamValue::Number(a.sat_drive_mid),
        p == AurumParam::SatDriveSide ==> r == ParamValue::Number(a.sat_drive_side),
        p == AurumParam::SatMix ==> r == ParamValue::Number(a.sat_mix),
        p == AurumParam::SatHarmonics ==> r == ParamValue::Choice(a.sat_harmonics),
{
}

/// A new plugin: all switches off but the modern limiter, every gain at 0 dB, and the rest where
/// the documentation has it.
pub proof fn law_a_new_plugin_stands_at_its_defaults(a: AurumParams)
    requires
        call_ensures(AurumParams::new, (), a),
    ensures
        !a.side_active,
        !a.mono_active,
        !a.delta_active,
        !a.bypass_active,
        !a.at_active,
        a.at_amount.bits == 0x4248_0000,
        a.output_gain.bits == 0x0000_0000,
        a.stereo_width.bits == 0x3f80_0000,
        a.mono_floor.bits == 0x0000_0000,
        a.clip_ceiling.bits == 0xbf80_0000,
        a.clip_softness.bits == 0x4248_0000,
        !a.clip_ms_mode,
        a.eq_m_lo_shelf.bits == 0x0000_0000,
        a.eq_m_lo_mid.bits == 0x0000_0000,
        a.eq_m_hi_mid.bits == 0x0000_0000,
        a.eq_m_hi_shelf.bits == 0x0000_0000,
        a.eq_s_lo_shelf.bits == 0x0000_0000,
        a.eq_s_lo_mid.bits == 0x0000_0000,
        a.eq_s_hi_mid.bits == 0x0000_0000,
        a.eq_s_hi_shelf.bits == 0x0000_0000,
        a.comp_split.bits == 0x4348_0000,
        !a.comp_link,
        a.comp_thresh_lo.bits == 0xc140_0000,
        a.comp_thresh_hi.bits == 0xc140_0000,
        a.comp_ratio.bits == 0x3fc0_0000,
        a.comp_attack.bits == 0x41f0_0000,
        a.comp_release.bits == 0x4316_0000,
        a.comp_mix.bits == 0x4248_0000,
        a.sweet_hpf.bits == 0x41c0_0000,
        a.sweet_lpf.bits == 0x4708_b800,
        a.sweet_lo_shelf.bits == 0x0000_0000,
        a.sweet_hi_shelf.bits == 0x0000_0000,
        a.mb_crossover.bits == 0x437a_0000,
        a.mb_thresh_mid_lo.bits == 0xc040_0000,
        a.mb_thresh_mid_hi.bits == 0xc040_0000,
        a.mb_thresh_side.bits == 0xc0c0_0000,
        a.mb_gain_mid_lo.bits == 0x0000_0000,
        a.mb_gain_mid_hi.bits == 0x0000_0000,
        a.mb_gain_side.bits == 0x0000_0000,
        a.mb_attack_mid_lo.bits == 0x40a0_0000,
        a.mb_attack_mid_hi.bits == 0x4000_0000,
        a.mb_attack_side.bits == 0x40a0_0000,
        a.mb_release_mid_lo.bits == 0x42c8_0000,
        a.mb_release_mid_hi.bits == 0x42a0_0000,
        a.mb_release_side.bits == 0x4316_0000,
        !a.mb_fader_link,
        a.mb_global_gain.bits == 0x0000_0000,
        a.mb_global_thresh.bits == 0x0000_0000,
        a.mb_mode,
        a.lim_ceiling.bits == 0xbf80_0000,
        a.lim_release.bits == 0x42c8_0000,
        !a.sat_ms_mode,
        a.sat_drive_stereo.bits == 0x0000_0000,
        a.sat_drive_mid.bits == 0x0000_0000,
        a.sat_drive_side.bits == 0x0000_0000,
        a.sat_mix.bits == 0x41a0_0000,
        a.sat_harmonics == 2,
{
    assert(a.at(AurumParam::SideActive) == crate::aurum_params::start_value(AurumParam::SideActive));
    assert(a.at(AurumParam::MonoActive) == crate::aurum_params::start_value(AurumParam::MonoActive));
    assert(a.at(AurumParam::DeltaActive) == crate::aurum_params::start_value(AurumParam::DeltaActive));
    assert(a.at(AurumParam::BypassActive) == crate::aurum_params::start_value(AurumParam::BypassActive));
    assert(a.at(AurumParam::AtActive) == crate::aurum_params::start_value(AurumParam::AtActive));
    assert(a.at(AurumParam::AtAmount) == crate::aurum_params::start_value(AurumParam::AtAmount));
    assert(a.at(AurumParam::OutputGain) == crate::aurum_params::start_value(AurumParam::OutputGain));
    assert(a.at(AurumParam::StereoWidth) == crate::aurum_params::start_value(AurumParam::StereoWidth));
    assert(a.at(AurumParam::MonoFloor) == crate::aurum_params::start_value(AurumParam::MonoFloor));
    assert(a.at(AurumParam::ClipCeiling) == crate::aurum_params::start_value(AurumParam::ClipCeiling));
    assert(a.at(AurumParam::ClipSoftness) == crate::aurum_params::start_value(AurumParam::ClipSoftness));
    assert(a.at(AurumParam::ClipMsMode) == crate::aurum_params::start_value(AurumParam::ClipMsMode));
    assert(a.at(AurumParam::EqMLoShelf) == crate::aurum_params::start_value(AurumParam::EqMLoShelf));
    assert(a.at(AurumParam::EqMLoMid) == crate::aurum_params::start_value(AurumParam::EqMLoMid));
    assert(a.at(AurumParam::EqMHiMid) == crate::aurum_params::start_value(AurumParam::EqMHiMid));
    assert(a.at(AurumParam::EqMHiShelf) == crate::aurum_params::start_value(AurumParam::EqMHiShelf));
    assert(a.at(AurumParam::EqSLoShelf) == crate::aurum_params::start_value(AurumParam::EqSLoShelf));
    assert(a.at(AurumParam::EqSLoMid) == crate::aurum_params::start_value(AurumParam::EqSLoMid));
    assert(a.at(AurumParam::EqSHiMid) == crate::aurum_params::start_value(AurumParam::EqSHiMid));
    assert(a.at(AurumParam::EqSHiShelf) == crate::aurum_params::start_value(AurumParam::EqSHiShelf));
    assert(a.at(AurumParam::CompSplit) == crate::aurum_params::start_value(AurumParam::CompSplit));
    assert(a.at(AurumParam::CompLink) == crate::aurum_params::start_value(AurumParam::CompLink));
    assert(a.at(AurumParam::CompThreshLo) == crate::aurum_params::start_value(AurumParam::CompThreshLo));
    assert(a.at(AurumParam::CompThreshHi) == crate::aurum_params::start_value(AurumParam::CompThreshHi));
    assert(a.at(AurumParam::CompRatio) == crate::aurum_params::start_value(AurumParam::CompRatio));
    assert(a.at(AurumParam::CompAttack) == crate::aurum_params::start_value(AurumParam::CompAttack));
    assert(a.at(AurumParam::CompRelease) == crate::aurum_params::start_value(AurumParam::CompRelease));
    assert(a.at(AurumParam::CompMix) == crate::aurum_params::start_value(AurumParam::CompMix));
    assert(a.at(AurumParam::SweetHpf) == crate::aurum_params::start_value(AurumParam::SweetHpf));
    assert(a.at(AurumParam::SweetLpf) == crate::aurum_params::start_value(AurumParam::SweetLpf));
    assert(a.at(AurumParam::SweetLoShelf) == crate::aurum_params::start_value(AurumParam::SweetLoShelf));
    assert(a.at(AurumParam::SweetHiShelf) == crate::aurum_params::start_value(AurumParam::SweetHiShelf));
    assert(a.at(AurumParam::MbCrossover) == crate::aurum_params::start_value(AurumParam::MbCrossover));
    assert(a.at(AurumParam::MbThreshMidLo) == crate::aurum_params::start_value(AurumParam::MbThreshMidLo));
    assert(a.at(AurumParam::MbThreshMidHi) == crate::aurum_params::start_value(AurumParam::MbThreshMidHi));
    assert(a.at(AurumParam::MbThreshSide) == crate::aurum_params::start_value(AurumParam::MbThreshSide));
    assert(a.at(AurumParam::MbGainMidLo) == crate::aurum_params::start_value(AurumParam::MbGainMidLo));
    assert(a.at(AurumParam::MbGainMidHi) == crate::aurum_params::start_value(AurumParam::MbGainMidHi));
    assert(a.at(AurumParam::MbGainSide) == crate::aurum_params::start_value(AurumParam::MbGainSide));
    assert(a.at(AurumParam::MbAttackMidLo) == crate::aurum_params::start_value(AurumParam::MbAttackMidLo));
    assert(a.at(AurumParam::MbAttackMidHi) == crate::aurum_params::start_value(AurumParam::MbAttackMidHi));
    assert(a.at(AurumParam::MbAttackSide) == crate::aurum_params::start_value(AurumParam::MbAttackSide));
    assert(a.at(AurumParam::MbReleaseMidLo) == crate::aurum_params::start_value(AurumParam::MbReleaseMidLo));
    assert(a.at(AurumParam::MbReleaseMidHi) == crate::aurum_params::start_value(AurumParam::MbReleaseMidHi));
    assert(a.at(AurumParam::MbReleaseSide) == crate::aurum_params::start_value(AurumParam::MbReleaseSide));
    assert(a.at(AurumParam::MbFaderLink) == crate::aurum_params::start_value(AurumParam::MbFaderLink));
    assert(a.at(AurumParam::MbGlobalGain) == crate::aurum_params::start_value(AurumParam::MbGlobalGain));
    assert(a.at(AurumParam::MbGlobalThresh) == crate::aurum_params::start_value(AurumParam::MbGlobalThresh));
    assert(a.at(AurumParam::MbMode) == crate::aurum_params::start_value(AurumParam::MbMode));
    assert(a.at(AurumParam::LimCeiling) == crate::aurum_params::start_value(AurumParam::LimCeiling));
    assert(a.at(AurumParam::LimRelease) == crate::aurum_params::start_value(AurumParam::LimRelease));
    assert(a.at(AurumParam::SatMsMode) == crate::aurum_params::start_value(AurumParam::SatMsMode));
    assert(a.at(AurumParam::SatDriveStereo) == crate::aurum_params::start_value(AurumParam::SatDriveStereo));
    assert(a.at(AurumParam::SatDriveMid) == crate::aurum_params::start_value(AurumParam::SatDriveMid));
    assert(a.at(AurumParam::SatDriveSide) == crate::aurum_params::start_value(AurumParam::SatDriveSide));
    assert(a.at(AurumParam::SatMix) == crate::aurum_params::start_value(AurumParam::SatMix));
    assert(a.at(AurumParam::SatHarmonics) == crate::aurum_params::start_value(AurumParam::SatHarmonics));
}

/// Every parameter that is a number has its range, and only these.
pub proof fn law_numbers_have_their_ranges(p: AurumParam, r: Option<(Level, Level)>)
    requires
        call_ensures(param_range, (p,), r),
    ensures
        p == AurumParam::AtAmount || p == AurumParam::ClipSoftness || p == AurumParam::CompMix ==> r == Some((Level { bits: 0x0000_0000 }, Level { bits: 0x42c8_0000 })),
        p == AurumParam::OutputGain ==> r == Some((Level { bits: 0xc140_0000 }, Level { bits: 0x4140_0000 })),
        p == AurumParam::StereoWidth ==> r == Some((Level { bits: 0x0000_0000 }, Level { bits: 0x4000_0000 })),
        p == AurumParam::MonoFloor ==> r == Some((Level { bits: 0x0000_0000 }, Level { bits: 0x4396_0000 })),
        p == AurumParam::ClipCeiling || p == AurumParam::LimCeiling ==> r == Some((Level { bits: 0xc0c0_0000 }, Level { bits: 0xbdcc_cccd })),
        p == AurumParam::EqMLoShelf || p == AurumParam::EqMLoMid || p == AurumParam::EqMHiMid || p == AurumParam::EqMHiShelf || p == AurumParam::EqSLoShelf || p == AurumParam::EqSLoMid || p == AurumParam::EqSHiMid || p == AurumParam::EqSHiShelf || p == AurumParam::MbGainMidLo || p == AurumParam::MbGainMidHi || p == AurumParam::MbGainSide || p == AurumParam::MbGlobalGain ==> r == Some((Level { bits: 0xc0c0_0000 }, Level { bits: 0x40c0_0000 })),
        p == AurumParam::CompSplit ==> r == Some((Level { bits: 0x42a0_0000 }, Level { bits: 0x43fa_0000 })),
        p == AurumParam::CompThreshLo || p == AurumParam::CompThreshHi ==> r == Some((Level { bits: 0xc1f0_0000 }, Level { bits: 0x0000_0000 })),
        p == AurumParam::CompRatio ==> r == Some((Level { bits: 0x3f99_999a }, Level { bits: 0x4040_0000 })),
        p == AurumParam::CompAttack ==> r == Some((Level { bits: 0x4120_0000 }, Level { bits: 0x42c8_0000 })),
        p == AurumParam::CompRelease ==> r == Some((Level { bits: 0x4248_0000 }, Level { bits: 0x43fa_0000 })),
        p == AurumParam::SweetHpf ==> r == Some((Level { bits: 0x4120_0000 }, Level { bits: 0x4270_0000 })),
        p == AurumParam::SweetLpf ==> r == Some((Level { bits: 0x468c_a000 }, Level { bits: 0x471c_4000 })),
        p == AurumParam::SweetLoShelf || p == AurumParam::SweetHiShelf ==> r == Some((Level { bits: 0xc080_0000 }, Level { bits: 0x4080_0000 })),
        p == AurumParam::MbCrossover ==> r == Some((Level { bits: 0x41a0_0000 }, Level { bits: 0x43fa_0000 })),
        p == AurumParam::MbThreshMidLo || p == AurumParam::MbThreshMidHi || p == AurumParam::MbThreshSide || p == AurumParam::MbGlobalThresh ==> r == Some((Level { bits: 0xc190_0000 }, Level { bits: 0x0000_0000 })),
        p == AurumParam::MbAttackMidLo || p == AurumParam::MbAttackMidHi || p == AurumParam::MbAttackSide ==> r == Some((Level { bits: 0x3dcc_cccd }, Level { bits: 0x4248_0000 })),
        p == AurumParam::MbReleaseMidLo || p == AurumParam::MbReleaseMidHi || p == AurumParam::MbReleaseSide || p == AurumParam::LimRelease ==> r == Some((Level { bits: 0x4120_0000 }, Level { bits: 0x43fa_0000 })),
        p == AurumParam::SatDriveStereo || p == AurumParam::SatDriveMid || p == AurumParam::SatDriveSide ==> r == Some((Level { bits: 0x0000_0000 }, Level { bits: 0x4140_0000 })),
        p == AurumParam::SatMix ==> r == Some((Level { bits: 0x0000_0000 }, Level { bits: 0x4270_0000 })),
        p == AurumParam::SideActive || p == AurumParam::MonoActive || p == AurumParam::DeltaActive || p == AurumParam::BypassActive || p == AurumParam::AtActive || p == AurumParam::ClipMsMode || p == AurumParam::CompLink || p == AurumParam::MbFaderLink || p == AurumParam::MbMode || p == AurumParam::SatMsMode || p == AurumParam::SatHarmonics ==> r is None,
{
}

/// A flipped switch is on exactly where its value was zero.
pub proof fn law_a_flipped_switch_is_on_from_zero(value: Level, r: bool)
    requires
        call_ensures(flipped, (value,), r),
    ensures
        r <==> value.bits == 0 || value.bits == 0x8000_0000,
{
}

/// The panel resets the clipper, the gain and the width, in that order.
pub proof fn law_the_panel_resets_three_knobs(r: Vec<(AurumParam, Level)>)
    requires
        call_ensures(panel_reset, (), r),
    ensures
        r@.len() == 3,
        r@[0] == (AurumParam::ClipCeiling, Level { bits: 0x3f51_1340 }),
        r@[1] == (AurumParam::OutputGain, Level { bits: 0x3f00_0000 }),
        r@[2] == (AurumParam::StereoWidth, Level { bits: 0x3f00_0000 }),
{
}

/// The snapshot button stays lit for 72 ticks, counts them down and shows that it works.
pub proof fn law_the_snapshot_button_goes_out(
    p: &mut AurumPanel,
    q: &mut AurumPanel,
    s: &AurumPanel,
    label: String,
    u: (),
)
    requires
        call_ensures(AurumPanel::press_snap, (p,), u),
        call_ensures(AurumPanel::tick, (q,), u),
        call_ensures(AurumPanel::snap_label, (s,), label),
    ensures
        final(p).snap == 72,
        final(p).tab == old(p).tab && final(p).show_setup == old(p).show_setup,
        old(q).snap > 0 ==> final(q).snap == old(q).snap - 1,
        old(q).snap == 0 ==> final(q).snap == 0,
        s.snap > 0 ==> label@ == "ANALYZING..."@,
        s.snap == 0 ==> label@ == "SNAP"@,
{
}

/// The tabs: the first shapes, the second colours, any other limits; the set-up form hides them.
pub proof fn law_tabs_are_shown_by_number(
    e: &AurumEditor,
    t: AurumTab,
    p: &AurumPanel,
    r: Option<AurumTab>,
)
    requires
        call_ensures(AurumEditor::shown_tab, (e,), t),
        call_ensures(AurumPanel::shown_tab, (p,), r),
    ensures
        e.selected_tab == 0 ==> t == AurumTab::Shape,
        e.selected_tab == 1 ==> t == AurumTab::Color,
        e.selected_tab >= 2 ==> t == AurumTab::Limit,
        p.show_setup ==> r is None,
        !p.show_setup && p.tab == 0 ==> r == Some(AurumTab::Shape),
        !p.show_setup && p.tab == 1 ==> r == Some(AurumTab::Color),
        !p.show_setup && p.tab >= 2 ==> r == Some(AurumTab::Limit),
{
}

/// The lines beside the limiter: the gain reduction, or none from -0.01 dB on, then the left and
/// the right peak.
pub proof fn law_the_lines_show_reduction_and_peaks(
    gr: Level,
    text: &str,
    left: &str,
    right: &str,
    a: String,
    b: String,
)
    requires
        call_ensures(output_line, (gr, text, left, right), a),
        call_ensures(panel_line, (gr, text, left, right), b),
    ensures
        gr.at_least(Level { bits: 0xbc23_d70a }) ==> a@ == "GR: "@ + "0.0 dB"@ + " | L:"@ + left@
            + " R:"@ + right@ + " dB"@ && b@ == "GR "@ + "0.0 dB"@ + " | L "@ + left@ + " R "@
            + right@ + " dB"@,
        !gr.at_least(Level { bits: 0xbc23_d70a }) ==> a@ == "GR: "@ + (text@ + " dB"@) + " | L:"@
            + left@ + " R:"@ + right@ + " dB"@ && b@ == "GR "@ + (text@ + " dB"@) + " | L "@ + left@
            + " R "@ + right@ + " dB"@,
{
}

} // verus!
