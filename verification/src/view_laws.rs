//! What holds of what is drawn: of scopes, knobs, meters, spectra and recorded backgrounds.

use crate::canvas::{
    correlation_text, floored, fmt_db, marked, smooth_spectrum_third_octave, EqCurveView,
    EqSpectrumView, Five, GoniometerView, MeterBar, MeterZone, SmoothMath, SpectrumView,
    StereoMeterView, BandLayers,
};
use crate::knob::{format_knob_value, on_scale, Gesture, KnobEvent, KnobReply, KnobView, Mouse};
use crate::layer_cache::{LayerCache, LayerCacheKey, LayerProfile};
use crate::level::Level;
use crate::scope::{
    correlation_zone, goniometer_dots, law_scope_reads_back_what_was_written, pass_through, written,
    Correlation, Dot, Frame, FrameBuffer, Scope,
};
use vstd::arithmetic::div_mod::{lemma_mod_add_multiples_vanish, lemma_small_mod};
use vstd::prelude::*;
use vstd::string::*;

verus! {

/// After a block the ring holds its last samples: the one before the place of the next write is the
/// last one, and those before it follow backwards, round the end of the ring.
pub proof fn law_a_scope_holds_the_last_samples(
    s: &mut Scope,
    block: &Vec<Frame>,
    u: (),
    a: int,
)
    requires
        old(s).wf(),
        call_ensures(Scope::write_block, (s, block), u),
        0 <= a < block@.len(),
        a < old(s).samples@.len(),
    ensures
        final(s).samples@.len() == old(s).samples@.len(),
        final(s).write_pos < final(s).samples@.len(),
        a < final(s).write_pos ==> final(s).samples@[final(s).write_pos - 1 - a]
            == block@[block@.len() - 1 - a],
        a >= final(s).write_pos ==> final(s).samples@[final(s).write_pos + final(s).samples@.len() - 1
            - a] == block@[block@.len() - 1 - a],
{
    let len = old(s).samples@.len() as int;
    let wp = final(s).write_pos as int;
    law_scope_reads_back_what_was_written(
        old(s).samples@,
        old(s).write_pos as int,
        block@,
        a,
    );
    if a < wp {
        lemma_mod_add_multiples_vanish(wp - a - 1, len);
        lemma_small_mod((wp - a - 1) as nat, len as nat);
        assert(wp + len - a - 1 == len + (wp - a - 1));
    } else {
        lemma_small_mod((wp + len - a - 1) as nat, len as nat);
    }
}

proof fn lemma_untouched(ring: Seq<Frame>, start: int, block: Seq<Frame>, n: nat, i: int)
    requires
        0 <= start,
        start + n <= ring.len(),
        0 <= i < ring.len(),
        i < start || i >= start + n,
        ring.len() > 0,
    ensures
        written(ring, start, block, n).len() == ring.len(),
        written(ring, start, block, n)[i] == ring[i],
    decreases n,
{
    if n > 0 {
        lemma_untouched(ring, start, block, (n - 1) as nat, i);
        lemma_small_mod((start + n - 1) as nat, ring.len());
    }
}

/// A block that does not reach the end of the ring leaves the other places as they were.
pub proof fn law_a_short_block_leaves_the_rest(s: &mut Scope, block: &Vec<Frame>, u: (), i: int)
    requires
        old(s).wf(),
        call_ensures(Scope::write_block, (s, block), u),
        old(s).write_pos + block@.len() < old(s).samples@.len(),
        0 <= i < old(s).samples@.len(),
        i < old(s).write_pos || i >= old(s).write_pos + block@.len(),
    ensures
        final(s).samples@[i] == old(s).samples@[i],
        final(s).write_pos == old(s).write_pos + block@.len(),
{
    lemma_untouched(old(s).samples@, old(s).write_pos as int, block@, block@.len(), i);
    lemma_small_mod((old(s).write_pos + block@.len()) as nat, old(s).samples@.len());
}

/// The dots are the last samples, the newest last; they brighten by thirds.
pub proof fn law_the_dots_are_the_last_samples(
    len: usize,
    write_pos: usize,
    limit: usize,
    r: Vec<Dot>,
    k: int,
)
    requires
        0 < len,
        write_pos < len,
        call_ensures(goniometer_dots, (len, write_pos, limit), r),
        0 <= k < r@.len(),
    ensures
        r@.len() == (if len < limit {
            len
        } else {
            limit
        }),
        r@[k].index < len,
        (r@.len() - 1 - k) < write_pos ==> r@[k].index == write_pos - 1 - (r@.len() - 1 - k),
        (r@.len() - 1 - k) >= write_pos ==> r@[k].index == write_pos + len - 1 - (r@.len() - 1 - k),
        3 * k < 3 * (r@.len() / 3) ==> r@[k].shade == 0,
        r@.len() / 3 <= k < 2 * (r@.len() / 3) ==> r@[k].shade == 1,
        k >= 2 * (r@.len() / 3) ==> r@[k].shade == 2,
{
    lemma_small_mod(write_pos as nat, len as nat);
    let age = r@.len() - 1 - k;
    if age < write_pos {
        lemma_mod_add_multiples_vanish(write_pos - age - 1, len as int);
        lemma_small_mod((write_pos - age - 1) as nat, len as nat);
        assert(write_pos + len - age - 1 == len + (write_pos - age - 1));
    } else {
        lemma_small_mod((write_pos + len - age - 1) as nat, len as nat);
    }
}

/// The correlation is good above 0.7, fair down to 0 and bad below.
pub proof fn law_the_correlation_has_its_zones(corr: Level, r: Correlation)
    requires
        call_ensures(correlation_zone, (corr,), r),
        !corr.nan(),
    ensures
        corr.above(Level { bits: 0x3f33_3333 }) ==> r == Correlation::Good,
        (Level { bits: 0x3f33_3333 }).at_least(corr) && corr.at_least(Level { bits: 0 }) ==> r
            == Correlation::Fair,
        (Level { bits: 0 }).above(corr) ==> r == Correlation::Bad,
{
}

/// A sample goes to the next place; the last place completes the frame and the next begins.
pub proof fn law_a_frame_fills_place_by_place(f: &mut FrameBuffer, sample: Level, full: bool, i: int)
    requires
        old(f).wf(),
        call_ensures(FrameBuffer::push, (f, sample), full),
        0 <= i < old(f).input@.len(),
    ensures
        final(f).input@.len() == old(f).input@.len(),
        final(f).input@[i] == (if i == old(f).write_pos {
            sample
        } else {
            old(f).input@[i]
        }),
        full <==> old(f).write_pos == old(f).input@.len() - 1,
        full ==> final(f).write_pos == 0,
        !full ==> final(f).write_pos == old(f).write_pos + 1,
{
}

/// A frame takes as many samples as it has room for, in their order.
pub proof fn law_a_frame_takes_what_it_has_room_for(
    f: &mut FrameBuffer,
    samples: &Vec<Level>,
    from: usize,
    r: Option<usize>,
    i: int,
)
    requires
        old(f).wf(),
        from <= samples@.len(),
        call_ensures(FrameBuffer::fill, (f, samples, from), r),
        0 <= i,
        from + i < samples@.len(),
        old(f).write_pos + i < old(f).input@.len(),
    ensures
        final(f).input@[old(f).write_pos + i] == samples@[from + i],
        r is Some <==> old(f).write_pos + (samples@.len() - from) >= old(f).input@.len(),
        r is Some ==> r->0 - from == old(f).input@.len() - old(f).write_pos && final(f).write_pos == 0,
        r is None ==> final(f).write_pos == old(f).write_pos + (samples@.len() - from),
{
}

/// The channels pass as they come.
pub proof fn law_channels_pass_as_they_come(
    input: &Vec<Vec<Level>>,
    output: Vec<Vec<Level>>,
    ch: int,
)
    requires
        call_ensures(pass_through, (input,), output),
        0 <= ch < input@.len(),
    ensures
        output@.len() == input@.len(),
        output@[ch]@ == input@[ch]@,
{
}

/// A press starts a change at the place of the mouse, unless it follows another within 400 ms: that
/// sets the default, as the right button does.  The release ends the change.
pub proof fn law_a_press_starts_and_a_release_ends<
    V: Fn(Level) -> Level,
    T: Fn(Level, Level, Level) -> Level,
>(k: &mut KnobView, e: KnobEvent, over: bool, value: V, turned: T, r: KnobReply)
    requires
        call_ensures(KnobView::event::<V, T>, (k, e, over, value, turned), r),
    ensures
        e is LeftDown && over && !(old(k).last_click is Some && old(k).last_click->0 <= e->now_ms
            < old(k).last_click->0 + 400) ==> r.gesture == Some(Gesture::Start) && r.mouse
            == Mouse::Capture && final(k).dragging && final(k).drag_start_y == e->LeftDown_y && final(k).drag_start_norm
            == old(k).value_norm && final(k).last_click == Some(e->now_ms),
        e is LeftDown && over && old(k).last_click is Some && old(k).last_click->0 <= e->now_ms < old(k).last_click->0
            + 400 ==> r.gesture is Some && r.gesture->0 is Change && call_ensures(
            value,
            (old(k).default_norm,),
            r.gesture->0->Change_0,
        ) && !final(k).dragging && final(k).last_click is None,
        e is RightDown && over ==> r.gesture is Some && r.gesture->0 is Change && call_ensures(
            value,
            (old(k).default_norm,),
            r.gesture->0->Change_0,
        ) && !final(k).dragging,
        (e is RightDown || e is LeftDown) && !over ==> r.gesture is None && *final(k) == *old(k),
        e is LeftUp && old(k).dragging ==> r.gesture == Some(Gesture::End) && r.mouse
            == Mouse::Release && !final(k).dragging,
        (e is LeftUp || e is Move) && !old(k).dragging ==> r.gesture is None && *final(k) == *old(k),
        e is Enter ==> final(k).hovered && r.redraw,
        e is Leave ==> !final(k).hovered && r.redraw,
        !(e is Move) ==> final(k).value_norm == old(k).value_norm,
        final(k).default_norm == old(k).default_norm,
{
}

/// A drag turns the knob from where it began to where it leads, on the scale from 0 to 1, and sets
/// the value that stands there.
pub proof fn law_a_drag_turns_the_knob<
    V: Fn(Level) -> Level,
    T: Fn(Level, Level, Level) -> Level,
>(k: &mut KnobView, y: Level, over: bool, value: V, turned: T, r: KnobReply)
    requires
        call_ensures(KnobView::event::<V, T>, (k, KnobEvent::Move { y }, over, value, turned), r),
        old(k).dragging,
    ensures
        exists|raw: Level| #[trigger]
            call_ensures(turned, (old(k).drag_start_norm, old(k).drag_start_y, y), raw) && (
            (Level { bits: 0 }).above(raw) ==> final(k).value_norm.bits == 0) && (raw.above(
                Level { bits: 0x3f80_0000 },
            ) ==> final(k).value_norm.bits == 0x3f80_0000) && (raw.at_least(Level { bits: 0 }) && (
            Level { bits: 0x3f80_0000 }).at_least(raw) ==> final(k).value_norm == raw),
        r.gesture is Some && r.gesture->0 is Change && call_ensures(
            value,
            (final(k).value_norm,),
            r.gesture->0->Change_0,
        ),
        r.redraw,
        final(k).dragging,
        final(k).drag_start_y == old(k).drag_start_y,
        final(k).drag_start_norm == old(k).drag_start_norm,
{
    let raw = choose|raw: Level|
        #![trigger on_scale(raw)]
        call_ensures(turned, (old(k).drag_start_norm, old(k).drag_start_y, y), raw) && final(k).value_norm == on_scale(raw);
    assert(call_ensures(turned, (old(k).drag_start_norm, old(k).drag_start_y, y), raw));
}

/// Values of a thousand and more are read in thousands, knobs that reach a hundred in whole numbers
/// and all others with decimals.
pub proof fn law_a_readout_fits_its_knob(
    value: Level,
    max: Level,
    thousands: &str,
    whole: &str,
    fine: &str,
    r: String,
)
    requires
        call_ensures(format_knob_value, (value, max, thousands, whole, fine), r),
        !value.nan() && !max.nan(),
    ensures
        max.at_least(Level { bits: 0x447a_0000 }) && value.at_least(Level { bits: 0x447a_0000 }) ==> r@
            == thousands@ + "k"@,
        max.at_least(Level { bits: 0x42c8_0000 }) && (Level { bits: 0x447a_0000 }).above(value) ==> r@
            == whole@,
        (Level { bits: 0x447a_0000 }).above(max) && max.at_least(Level { bits: 0x42c8_0000 }) ==> r@
            == whole@,
        (Level { bits: 0x42c8_0000 }).above(max) ==> r@ == fine@,
{
}

/// A key holds the size, the scale and the look, the numbers at least one.
pub proof fn law_a_key_holds_what_a_background_depends_on(
    width: u32,
    height: u32,
    scale: u32,
    hash: u64,
    r: LayerCacheKey,
)
    requires
        call_ensures(LayerCacheKey::from_bounds, (width, height, scale, hash), r),
    ensures
        width > 0 ==> r.width == width,
        height > 0 ==> r.height == height,
        scale > 0 ==> r.scale_x100 == scale,
        width == 0 ==> r.width == 1,
        height == 0 ==> r.height == 1,
        scale == 0 ==> r.scale_x100 == 1,
        r.static_hash == hash,
{
}

/// A background that was recorded for the key is replayed, and the cache stays; one that was not is
/// recorded and kept, beside the others.  A disabled cache records every time.
pub proof fn law_a_background_is_replayed_where_it_is_known<
    P,
    C,
    R: FnOnce() -> P,
    S: FnOnce(C, &P) -> C,
    D: FnOnce(C) -> C,
>(
    c: &mut LayerCache<P>,
    key: LayerCacheKey,
    disabled: bool,
    canvas: C,
    record: R,
    replay: S,
    paint: D,
    r: C,
    other: LayerCacheKey,
)
    requires
        old(c).wf(),
        call_ensures(
            LayerCache::<P>::draw_cached_layer::<C, R, S, D>,
            (c, key, disabled, canvas, record, replay, paint),
            r,
        ),
        other != key,
    ensures
        !disabled && old(c)@.contains_key(key) ==> final(c)@ == old(c)@,
        final(c)@.contains_key(key),
        disabled || !old(c)@.contains_key(key) ==> call_ensures(record, (), final(c)@[key]),
        final(c)@.contains_key(other) == old(c)@.contains_key(other),
        old(c)@.contains_key(other) ==> final(c)@[other] == old(c)@[other],
        exists|replayed: C| #[trigger]
            call_ensures(replay, (canvas, &final(c)@[key]), replayed) && call_ensures(
                paint,
                (replayed,),
                r,
            ),
{
    let shown = choose|shown: P| #[trigger]
        LayerCache::<P>::drawn(old(c)@, key, disabled, record, final(c)@, shown)
            && LayerCache::<P>::layered(canvas, shown, replay, paint, r);
    assert(final(c)@[key] == shown);
    let replayed = choose|replayed: C| #[trigger]
        call_ensures(replay, (canvas, &shown), replayed) && call_ensures(paint, (replayed,), r);
    assert(call_ensures(replay, (canvas, &final(c)@[key]), replayed));
}

/// Every 120 draws give the sums of their times, which then start again.
pub proof fn law_a_profile_sums_up_its_draws(
    p: &mut LayerProfile,
    a: u64,
    b: u64,
    c: u64,
    r: Option<LayerProfile>,
)
    requires
        old(p).calls + 1 <= u64::MAX,
        old(p).static_us + a <= u64::MAX,
        old(p).dynamic_us + b <= u64::MAX,
        old(p).replay_us + c <= u64::MAX,
        call_ensures(LayerProfile::report_profile, (p, a, b, c), r),
    ensures
        final(p).calls == old(p).calls + 1,
        r is Some <==> (old(p).calls + 1) % 120 == 0,
        r is Some ==> r->0.static_us == old(p).static_us + a && r->0.dynamic_us == old(p).dynamic_us
            + b && r->0.replay_us == old(p).replay_us + c && final(p).static_us == 0 && final(p).dynamic_us == 0 && final(p).replay_us == 0,
        r is None ==> final(p).static_us == old(p).static_us + a && final(p).dynamic_us == old(p).dynamic_us + b && final(p).replay_us == old(p).replay_us + c,
{
}

/// A bar is over above 0 dB and hot above -6 dB, of its own channel; its hold is drawn above -60 dB.
pub proof fn law_each_bar_shows_its_channel(m: &StereoMeterView, r: (MeterBar, MeterBar))
    requires
        call_ensures(StereoMeterView::bars, (m,), r),
    ensures
        r.0.zone == MeterZone::Over <==> m.peak_l.above(Level { bits: 0 }),
        r.0.zone == MeterZone::Hot <==> m.peak_l.above(Level { bits: 0xc0c0_0000 })
            && !m.peak_l.above(Level { bits: 0 }),
        r.1.zone == MeterZone::Over <==> m.peak_r.above(Level { bits: 0 }),
        r.1.zone == MeterZone::Hot <==> m.peak_r.above(Level { bits: 0xc0c0_0000 })
            && !m.peak_r.above(Level { bits: 0 }),
        r.0.hold_shown <==> m.hold_l.above(Level { bits: 0xc270_0000 }),
        r.1.hold_shown <==> m.hold_r.above(Level { bits: 0xc270_0000 }),
{
}

/// The balance is drawn between its ends, and is centred nearer than 0.08 to the middle.
pub proof fn law_the_balance_stays_between_its_ends(m: &StereoMeterView, r: (Level, bool))
    requires
        call_ensures(StereoMeterView::cursor, (m,), r),
        !m.balance.nan(),
    ensures
        m.balance.at_least(Level { bits: 0xbf80_0000 }) && (Level { bits: 0x3f80_0000 }).at_least(
            m.balance,
        ) ==> r.0 == m.balance,
        m.balance.above(Level { bits: 0x3f80_0000 }) ==> r.0.bits == 0x3f80_0000,
        (Level { bits: 0xbf80_0000 }).above(m.balance) ==> r.0.bits == 0xbf80_0000,
        r.1 <==> r.0.above(Level { bits: 0xbda3_d70a }) && (Level { bits: 0x3da3_d70a }).above(r.0),
{
}

/// Levels from -60 dB down are told as minus infinity, and correlations from 0 up with a plus.
pub proof fn law_readouts_of_the_meters(v: Level, text: &str, db: String, corr: String)
    requires
        call_ensures(fmt_db, (v, text), db),
        call_ensures(correlation_text, (v, text), corr),
        !v.nan(),
    ensures
        v.above(Level { bits: 0xc270_0000 }) ==> db@ == text@,
        !v.above(Level { bits: 0xc270_0000 }) ==> db@ == "-inf"@,
        v.at_least(Level { bits: 0 }) ==> corr@ == "+"@ + text@,
        (Level { bits: 0 }).above(v) ==> corr@ == text@,
{
}

/// A scope draws at most 2048 dots and shows the correlation between its ends.
pub proof fn law_a_goniometer_shows_its_samples(
    g: &GoniometerView,
    dots: Vec<Dot>,
    mark: (Level, Correlation),
    k: int,
)
    requires
        call_ensures(GoniometerView::dots, (g,), dots),
        call_ensures(GoniometerView::correlation_mark, (g,), mark),
        g.write_pos < g.samples@.len(),
        !g.correlation.nan(),
        0 <= k < dots@.len(),
    ensures
        dots@.len() == (if g.samples@.len() < 2048 {
            g.samples@.len()
        } else {
            2048
        }),
        (dots@.len() - 1 - k) < g.write_pos ==> dots@[k].index == g.write_pos - 1 - (dots@.len() - 1
            - k),
        g.correlation.above(Level { bits: 0x3f80_0000 }) ==> mark.0.bits == 0x3f80_0000,
        (Level { bits: 0xbf80_0000 }).above(g.correlation) ==> mark.0.bits == 0xbf80_0000,
        g.correlation.at_least(Level { bits: 0xbf80_0000 }) && (Level {
            bits: 0x3f80_0000,
        }).at_least(g.correlation) ==> mark.0 == g.correlation,
        mark.1 == Correlation::Good <==> mark.0.above(Level { bits: 0x3f33_3333 }),
        mark.1 == Correlation::Bad <==> (Level { bits: 0 }).above(mark.0),
{
    let len = g.samples@.len() as int;
    let wp = g.write_pos as int;
    lemma_small_mod(wp as nat, len as nat);
    let age = dots@.len() - 1 - k;
    if age < wp {
        lemma_mod_add_multiples_vanish(wp - age - 1, len);
        lemma_small_mod((wp - age - 1) as nat, len as nat);
        assert(wp + len - age - 1 == len + (wp - age - 1));
    }
}

proof fn lemma_marked(shown: Seq<bool>, n: nat)
    requires
        n <= shown.len(),
        n <= usize::MAX,
    ensures
        forall|i: int|
            0 <= i < marked(shown, n).len() ==> (#[trigger] marked(shown, n)[i]) < n && shown[marked(
                shown,
                n,
            )[i] as int],
        forall|k: int| 0 <= k < n && #[trigger] shown[k] ==> marked(shown, n).contains(k as usize),
        forall|i: int, j: int|
            0 <= i < j < marked(shown, n).len() ==> (#[trigger] marked(shown, n)[i]) < (
            #[trigger] marked(shown, n)[j]),
    decreases n,
{
    if n > 0 {
        lemma_marked(shown, (n - 1) as nat);
        let before = marked(shown, (n - 1) as nat);
        let now = marked(shown, n);
        assert forall|i: int| 0 <= i < now.len() implies (#[trigger] now[i]) < n
            && shown[now[i] as int] by {
            if i < before.len() {
                assert(now[i] == before[i]);
            }
        }
        assert forall|k: int| 0 <= k < n && #[trigger] shown[k] implies now.contains(
            k as usize,
        ) by {
            if k < n - 1 {
                let i = choose|i: int| 0 <= i < before.len() && before[i] == k as usize;
                assert(now[i] == k as usize);
            } else {
                assert(now.last() == k as usize);
            }
        }
        assert forall|i: int, j: int| 0 <= i < j < now.len() implies (#[trigger] now[i]) < (
        #[trigger] now[j]) by {
            assert(now[i] == before[i]);
            if j < before.len() {
                assert(now[j] == before[j]);
            }
        }
    }
}

/// The curves with a spectrum are drawn, in their order, and no others.
pub proof fn law_curves_with_a_spectrum_are_drawn(v: &SpectrumView, r: Vec<usize>, i: int, k: int)
    requires
        v.curves@.len() <= usize::MAX,
        call_ensures(SpectrumView::drawn_curves, (v,), r),
    ensures
        0 <= i < r@.len() ==> r@[i] < v.curves@.len() && v.curves@[r@[i] as int].spectrum@.len() > 0,
        0 < i < r@.len() ==> r@[i - 1] < r@[i],
        0 <= k < v.curves@.len() && v.curves@[k].spectrum@.len() > 0 ==> r@.contains(k as usize),
{
    let shown = Seq::new(v.curves@.len(), |i: int| v.curves@[i].spectrum@.len() > 0);
    lemma_marked(shown, v.curves@.len());
    if 0 <= k < v.curves@.len() && v.curves@[k].spectrum@.len() > 0 {
        assert(shown[k]);
    }
}

/// A collision is drawn above the foot of the spectrum, from 20 Hz to 20 kHz, and every such one
/// is.
pub proof fn law_audible_collisions_are_drawn<F: Fn(usize) -> Level>(
    v: &SpectrumView,
    freq: F,
    r: Vec<usize>,
    i: int,
    k: int,
)
    requires
        v.masking@.len() <= usize::MAX,
        call_ensures(SpectrumView::drawn_masking::<F>, (v, freq), r),
    ensures
        0 <= i < r@.len() ==> r@[i] < v.masking@.len() && !v.config.min_db.at_least(
            v.masking@[r@[i] as int],
        ) && exists|f: Level| #[trigger]
            call_ensures(freq, (r@[i],), f) && f.at_least(Level { bits: 0x41a0_0000 }) && (Level {
                bits: 0x469c_4000,
            }).at_least(f),
        0 <= k < v.masking@.len() && !v.config.min_db.at_least(v.masking@[k]) && (forall|f: Level|
            #[trigger] call_ensures(freq, (k as usize,), f) ==> f.at_least(Level { bits: 0x41a0_0000 })
                && (Level { bits: 0x469c_4000 }).at_least(f)) ==> r@.contains(k as usize),
{
    let freqs = choose|freqs: Seq<Level>|
        {
            &&& freqs.len() == v.masking@.len()
            &&& forall|k: int|
                0 <= k < freqs.len() ==> call_ensures(freq, (k as usize,), #[trigger] freqs[k])
            &&& r@ == marked(#[trigger] v.masking_marks(freqs), v.masking@.len())
        };
    let shown = v.masking_marks(freqs);
    lemma_marked(shown, v.masking@.len());
    if 0 <= i < r@.len() {
        let b = r@[i] as int;
        assert(shown[b]);
        assert(call_ensures(freq, (b as usize,), freqs[b]));
    }
    if 0 <= k < v.masking@.len() {
        assert(call_ensures(freq, (k as usize,), freqs[k]));
        assert(shown[k] == v.masking_shown(k, freqs[k]));
    }
}

/// A resonance is drawn from 20 Hz to 20 kHz, and every such one is.
pub proof fn law_audible_resonances_are_drawn<F: Fn(usize) -> Level>(
    v: &SpectrumView,
    freq: F,
    r: Vec<usize>,
    i: int,
    k: int,
)
    requires
        v.resonance_peaks@.len() <= usize::MAX,
        call_ensures(SpectrumView::drawn_resonances::<F>, (v, freq), r),
    ensures
        0 <= i < r@.len() ==> r@[i] < v.resonance_peaks@.len() && exists|f: Level| #[trigger]
            call_ensures(freq, (v.resonance_peaks@[r@[i] as int].0,), f) && f.at_least(
                Level { bits: 0x41a0_0000 },
            ) && (Level { bits: 0x469c_4000 }).at_least(f),
        0 <= k < v.resonance_peaks@.len() && (forall|f: Level| #[trigger]
            call_ensures(freq, (v.resonance_peaks@[k].0,), f) ==> f.at_least(
                Level { bits: 0x41a0_0000 },
            ) && (Level { bits: 0x469c_4000 }).at_least(f)) ==> r@.contains(k as usize),
{
    let freqs = choose|freqs: Seq<Level>|
        {
            &&& freqs.len() == v.resonance_peaks@.len()
            &&& forall|k: int|
                0 <= k < freqs.len() ==> call_ensures(
                    freq,
                    (v.resonance_peaks@[k].0,),
                    #[trigger] freqs[k],
                )
            &&& r@ == marked(#[trigger] crate::canvas::audible_marks(freqs), freqs.len())
        };
    let shown = crate::canvas::audible_marks(freqs);
    lemma_marked(shown, freqs.len());
    if 0 <= i < r@.len() {
        let b = r@[i] as int;
        assert(shown[b]);
        assert(call_ensures(freq, (v.resonance_peaks@[b].0,), freqs[b]));
    }
    if 0 <= k < freqs.len() {
        assert(call_ensures(freq, (v.resonance_peaks@[k].0,), freqs[k]));
        assert(shown[k] == crate::canvas::audible(freqs[k]));
    }
}

/// A smoothed spectrum has 481 points; each inner one is mixed of the level before it, its own and
/// the level behind it, in this order.
pub proof fn law_a_smoothed_point_is_mixed_of_three<
    P: Fn(Level) -> Level,
    B: Fn(&Vec<Level>, usize) -> (Level, Level),
    D: Fn(Level) -> Level,
    T: Fn(Level, Level, Level) -> Level,
>(spectrum: &Vec<Level>, math: &SmoothMath<P, B, D, T>, r: Vec<(Level, Level)>, i: int)
    requires
        call_ensures(smooth_spectrum_third_octave::<P, B, D, T>, (spectrum, math), r),
        spectrum@.len() > 1,
        0 < i < 480,
    ensures
        r@.len() == 481,
        exists|powers: Vec<Level>, a: (Level, Level), b: (Level, Level), c: (Level, Level)|
            #[trigger] three_bands(*math, powers, i, a, b, c) && (forall|k: int|
                1 <= k < spectrum@.len() ==> call_ensures(
                    math.power,
                    (spectrum@[k],),
                    #[trigger] powers@[k],
                )) && powers@.len() == spectrum@.len() && powers@[0].bits == 0 && r@[i].0 == b.0
                && mixed_of(*math, a.1, b.1, c.1, r@[i].1),
{
    let (powers, averages, levels, first, mixed): (
        Vec<Level>,
        Seq<(Level, Level)>,
        Seq<Level>,
        Seq<(Level, Level)>,
        Seq<Level>,
    ) = choose|
        powers: Vec<Level>,
        averages: Seq<(Level, Level)>,
        levels: Seq<Level>,
        first: Seq<(Level, Level)>,
        mixed: Seq<Level>,
    |
        {
            &&& crate::canvas::powers_of(spectrum@, math.power, powers@)
            &&& #[trigger] crate::canvas::band_levels(
                powers,
                math.bands,
                math.decibel,
                averages,
                levels,
                first,
            )
            &&& #[trigger] crate::canvas::tapped(first, math.taps, mixed, r@)
        };
    let a = averages[i - 1];
    let b = averages[i];
    let c = averages[i + 1];
    assert(first[i] == (b.0, crate::canvas::shown_level(levels[i])));
    assert(first[i - 1] == (a.0, crate::canvas::shown_level(levels[i - 1])));
    assert(first[i + 1] == (c.0, crate::canvas::shown_level(levels[i + 1])));
    assert(call_ensures(math.taps, (first[i - 1].1, first[i].1, first[i + 1].1), mixed[i]));
    assert(r@[i] == (first[i].0, crate::canvas::shown_level(mixed[i])));
    assert(level_of_power(*math, a.1, levels[i - 1]));
    assert(level_of_power(*math, b.1, levels[i]));
    assert(level_of_power(*math, c.1, levels[i + 1]));
    assert(held_in_range(levels[i - 1], first[i - 1].1));
    assert(held_in_range(levels[i], first[i].1));
    assert(held_in_range(levels[i + 1], first[i + 1].1));
    assert(held_in_range(mixed[i], r@[i].1));
    assert(mixed_of(*math, a.1, b.1, c.1, r@[i].1));
    assert(call_ensures(math.bands, (&powers, (i - 1) as usize), a));
    assert(call_ensures(math.bands, (&powers, i as usize), b));
    assert(call_ensures(math.bands, (&powers, (i + 1) as usize), c));
    assert(three_bands(*math, powers, i, a, b, c));
}

/// Whether three neighbouring steps have these places and powers.
pub open spec fn three_bands<
    P: Fn(Level) -> Level,
    B: Fn(&Vec<Level>, usize) -> (Level, Level),
    D: Fn(Level) -> Level,
    T: Fn(Level, Level, Level) -> Level,
>(
    math: SmoothMath<P, B, D, T>,
    powers: Vec<Level>,
    i: int,
    a: (Level, Level),
    b: (Level, Level),
    c: (Level, Level),
) -> bool {
    &&& call_ensures(math.bands, (&powers, (i - 1) as usize), a)
    &&& call_ensures(math.bands, (&powers, i as usize), b)
    &&& call_ensures(math.bands, (&powers, (i + 1) as usize), c)
}

/// Whether a level is that of a power, which counts for at least 1e-12.
pub open spec fn level_of_power<
    P: Fn(Level) -> Level,
    B: Fn(&Vec<Level>, usize) -> (Level, Level),
    D: Fn(Level) -> Level,
    T: Fn(Level, Level, Level) -> Level,
>(math: SmoothMath<P, B, D, T>, power: Level, level: Level) -> bool {
    &&& power.at_least(Level { bits: 0x2b8c_bccc }) ==> call_ensures(math.decibel, (power,), level)
    &&& !power.at_least(Level { bits: 0x2b8c_bccc }) ==> call_ensures(
        math.decibel,
        (Level { bits: 0x2b8c_bccc },),
        level,
    )
}

/// Whether a level is held between -90 and 12 dB.
pub open spec fn held_in_range(raw: Level, held: Level) -> bool {
    &&& (Level { bits: 0xc2b4_0000 }).above(raw) ==> held.bits == 0xc2b4_0000
    &&& raw.above(Level { bits: 0x4140_0000 }) ==> held.bits == 0x4140_0000
    &&& !(Level { bits: 0xc2b4_0000 }).above(raw) && !raw.above(Level { bits: 0x4140_0000 }) ==> held
        == raw
}

/// Whether a level is mixed of those of three powers.
pub open spec fn mixed_of<
    P: Fn(Level) -> Level,
    B: Fn(&Vec<Level>, usize) -> (Level, Level),
    D: Fn(Level) -> Level,
    T: Fn(Level, Level, Level) -> Level,
>(
    math: SmoothMath<P, B, D, T>,
    a: Level,
    b: Level,
    c: Level,
    r: Level,
) -> bool {
    exists|x: Level, y: Level, z: Level, p: Level, q: Level, s: Level, m: Level|
        {
            &&& #[trigger] level_of_power(math, a, x)
            &&& #[trigger] level_of_power(math, b, y)
            &&& #[trigger] level_of_power(math, c, z)
            &&& #[trigger] held_in_range(x, p)
            &&& #[trigger] held_in_range(y, q)
            &&& #[trigger] held_in_range(z, s)
            &&& #[trigger] call_ensures(math.taps, (p, q, s), m)
            &&& held_in_range(m, r)
        }
}

/// A curve is drawn with points, on two pixels and more, from -12 to 12 dB.
pub proof fn law_a_curve_needs_points_and_room(
    points: Vec<(Level, Level)>,
    v: EqCurveView,
    width: Level,
    r: bool,
)
    requires
        call_ensures(EqCurveView::new, (points,), v),
        call_ensures(EqCurveView::is_drawn, (&v, width), r),
        !width.nan(),
    ensures
        v.points == points,
        v.db_min.bits == 0xc140_0000,
        v.db_max.bits == 0x4140_0000,
        r <==> points@.len() > 0 && width.at_least(Level { bits: 0x4000_0000 }),
{
}

/// The bars stand back once there is something listened to; it takes the place of the target past a
/// hundred samples.
pub proof fn law_the_target_gives_way_to_what_was_heard(
    v: &EqSpectrumView,
    average: Level,
    r: BandLayers,
)
    requires
        call_ensures(EqSpectrumView::layers, (v, average), r),
        !v.listen_samples.nan() && !average.nan(),
    ensures
        r.bars <==> average.above(Level { bits: 0xc28c_0000 }),
        r.dimmed <==> v.listen_samples.above(Level { bits: 0 }),
        r.listened <==> v.listen_samples.above(Level { bits: 0x42c8_0000 }),
        r.target <==> !r.listened,
{
}

/// Each level is raised to the floor where it lies below, and stays else.
pub proof fn law_levels_are_raised_to_the_floor(levels: &Five, floor: Level, r: Vec<Level>, i: int)
    requires
        call_ensures(floored, (levels, floor), r),
        0 <= i < 5,
        !floor.nan(),
    ensures
        r@.len() == 5,
        floor.above(levels@[i]) || levels@[i].nan() ==> r@[i] == floor,
        levels@[i].at_least(floor) ==> r@[i] == levels@[i],
{
}

} // verus!
