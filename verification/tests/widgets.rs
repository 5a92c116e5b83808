use lx_audiolabs::canvas::{
    correlation_text, floored, fmt_db, smooth_spectrum_third_octave, SmoothMath, EqCurveView, EqSpectrumView, GoniometerView, MeterZone,
    SpectrumConfig, SpectrumCurve, SpectrumView, StereoMeterView,
};
use lx_audiolabs::knob::{format_knob_value, Gesture, KnobEvent, KnobView, Mouse};
use lx_audiolabs::layer_cache::{LayerCache, LayerCacheKey, LayerProfile};
use lx_audiolabs::level::Level;
use lx_audiolabs::scope::Correlation;

fn f(x: f32) -> Level {
    Level::from_bits(x.to_bits())
}

fn x(l: Level) -> f32 {
    f32::from_bits(l.bits)
}

fn value(n: Level) -> Level {
    f(-12.0 + x(n) * 24.0)
}

fn turned(start: Level, from: Level, to: Level) -> Level {
    f((x(start) + (x(from) - x(to)) / 200.0).clamp(0.0, 1.0))
}

#[test]
fn a_drag_turns_a_knob() {
    let mut k = KnobView::new(f(0.5), f(0.5), f(-12.0), f(12.0), true);
    let r = k.event(KnobEvent::LeftDown { now_ms: 1000, y: f(100.0) }, true, value, turned);
    assert_eq!((r.gesture, r.mouse), (Some(Gesture::Start), Mouse::Capture));
    let r = k.event(KnobEvent::Move { y: f(50.0) }, false, value, turned);
    assert_eq!(r.gesture, Some(Gesture::Change(f(6.0))));
    assert!(r.redraw);
    assert_eq!(k.value_norm, f(0.75));
    let r = k.event(KnobEvent::LeftUp, false, value, turned);
    assert_eq!((r.gesture, r.mouse), (Some(Gesture::End), Mouse::Release));
    assert_eq!(k.event(KnobEvent::LeftUp, false, value, turned).gesture, None);
    assert_eq!(k.event(KnobEvent::Move { y: f(0.0) }, false, value, turned).gesture, None);
}

#[test]
fn double_and_right_clicks_reset_a_knob() {
    let mut k = KnobView::new(f(0.9), f(0.5), f(-12.0), f(12.0), true);
    k.event(KnobEvent::LeftDown { now_ms: 1000, y: f(0.0) }, true, value, turned);
    k.event(KnobEvent::LeftUp, true, value, turned);
    let r = k.event(KnobEvent::LeftDown { now_ms: 1399, y: f(0.0) }, true, value, turned);
    assert_eq!(r.gesture, Some(Gesture::Change(f(0.0))));
    let r = k.event(KnobEvent::LeftDown { now_ms: 1500, y: f(0.0) }, true, value, turned);
    assert_eq!(r.gesture, Some(Gesture::Start));
    k.event(KnobEvent::LeftUp, true, value, turned);
    let r = k.event(KnobEvent::LeftDown { now_ms: 1900, y: f(0.0) }, true, value, turned);
    assert_eq!(r.gesture, Some(Gesture::Start));
    let r = k.event(KnobEvent::RightDown, true, value, turned);
    assert_eq!(r.gesture, Some(Gesture::Change(f(0.0))));
    assert!(!k.dragging);
    assert_eq!(k.event(KnobEvent::RightDown, false, value, turned).gesture, None);
    k.event(KnobEvent::Enter, true, value, turned);
    assert!(k.hovered);
}

#[test]
fn readouts_fit_their_range() {
    assert_eq!(format_knob_value(f(2500.0), f(20000.0), "2.5", "2500", "2500.00"), "2.5k");
    assert_eq!(format_knob_value(f(250.0), f(20000.0), "0.2", "250", "250.00"), "250");
    assert_eq!(format_knob_value(f(1.5), f(12.0), "0.0", "2", "1.50"), "1.50");
    assert_eq!(fmt_db(f(-60.0), "-60.0"), "-inf");
    assert_eq!(fmt_db(f(-59.9), "-59.9"), "-59.9");
    assert_eq!(correlation_text(f(0.5), "0.50"), "+0.50");
    assert_eq!(correlation_text(f(-0.5), "-0.50"), "-0.50");
}

#[test]
fn meters_are_coloured_by_level() {
    let m = StereoMeterView::new(f(0.5), f(-3.0), f(-70.0), f(-3.0), f(0.05));
    let (l, r) = m.bars();
    assert_eq!((l.zone, l.hold_shown), (MeterZone::Over, false));
    assert_eq!((r.zone, r.hold_shown), (MeterZone::Hot, true));
    assert_eq!(m.cursor(), (f(0.05), true));
    let far = StereoMeterView::new(f(-20.0), f(-20.0), f(-20.0), f(-20.0), f(-3.0));
    assert_eq!(far.bars().0.zone, MeterZone::Normal);
    assert_eq!(far.cursor(), (f(-1.0), false));
}

#[test]
fn the_goniometer_draws_the_last_samples() {
    let g = GoniometerView::new(vec![(f(0.0), f(0.0)); 6], 2, f(1.7));
    let dots = g.dots();
    assert_eq!(dots.iter().map(|d| d.index).collect::<Vec<_>>(), vec![2, 3, 4, 5, 0, 1]);
    assert_eq!(dots.iter().map(|d| d.shade).collect::<Vec<_>>(), vec![0, 0, 1, 1, 2, 2]);
    assert_eq!(g.correlation_mark(), (f(1.0), Correlation::Good));
}

#[test]
fn the_spectrum_draws_what_is_audible() {
    let curve = |n: usize| SpectrumCurve {
        spectrum: vec![f(-30.0); n],
        color: (255, 115, 26),
        fill_alpha: f(0.2),
        line_alpha: f(1.0),
        line_width: f(1.5),
    };
    let view = SpectrumView::new(SpectrumView {
        curves: vec![curve(4), curve(0), curve(2)],
        config: SpectrumConfig::default(),
        resonance_peaks: vec![(0, f(5.0)), (100, f(5.0)), (2000, f(1.0))],
        masking: vec![f(-20.0), f(-70.0), f(-20.0), f(-90.0)],
    });
    assert_eq!(view.drawn_curves(), vec![0, 2]);
    assert_eq!(view.config.min_db, f(-70.0));
    let freq = |k: usize| f(k as f32 * 21.5);
    assert_eq!(view.drawn_masking(freq), vec![2]);
    assert_eq!(view.drawn_resonances(freq), vec![1]);
}

#[test]
fn a_smoothed_spectrum_keeps_its_ends() {
    let math = SmoothMath {
        power: |l: Level| l,
        bands: |v: &Vec<Level>, i: usize| (f(i as f32), if i == 1 { v[1] } else { v[0] }),
        decibel: |l: Level| l,
        taps: |a: Level, b: Level, c: Level| f(x(a) * 0.25 + x(b) * 0.5 + x(c) * 0.25),
    };
    assert!(smooth_spectrum_third_octave(&vec![], &math).is_empty());
    let r = smooth_spectrum_third_octave(&vec![f(7.0), f(8.0)], &math);
    assert_eq!(r.len(), 481);
    assert_eq!(r[0], (f(0.0), f(1e-12)));
    assert_eq!(r[1], (f(1.0), f(4.0)));
    assert_eq!(r[2], (f(2.0), f(2.0)));
    assert_eq!(r[480], (f(480.0), f(1e-12)));
    assert_eq!(smooth_spectrum_third_octave(&vec![f(-30.0), f(8.0)], &math), r);
    let loud = smooth_spectrum_third_octave(&vec![f(0.0), f(40.0)], &math);
    assert_eq!(loud[1].1, f(6.0));
}

#[test]
fn curves_and_bands_are_drawn_where_there_is_something() {
    let c = EqCurveView::new(vec![(f(0.0), f(0.0))]);
    assert!(c.is_drawn(f(2.0)) && !c.is_drawn(f(1.9)));
    assert!(!EqCurveView::new(vec![]).is_drawn(f(100.0)));
    assert_eq!((c.db_min, c.db_max), (f(-12.0), f(12.0)));
    let five = [f(-60.0); 5];
    let mut v = EqSpectrumView::new(EqSpectrumView {
        band_levels: five,
        target_levels: five,
        target_tolerances: five,
        listen_levels: five,
        listen_tolerances: five,
        listen_level_min: five,
        listen_level_max: five,
        listen_samples: f(0.0),
    });
    let l = v.layers(f(-60.0));
    assert!(l.bars && !l.dimmed && l.target && !l.listened);
    assert!(!v.layers(f(-70.0)).bars);
    v.listen_samples = f(101.0);
    let l = v.layers(f(-60.0));
    assert!(l.dimmed && !l.target && l.listened);
    assert_eq!(floored(&five, f(-50.0)), vec![f(-50.0); 5]);
}

#[test]
fn a_background_is_recorded_once() {
    let key = LayerCacheKey::from_bounds(0, 200, 150, 7);
    assert_eq!((key.width, key.height), (1, 200));
    let other = LayerCacheKey::from_bounds(10, 200, 150, 7);
    let mut cache: LayerCache<String> = LayerCache::new();
    let replay = |mut canvas: Vec<String>, p: &String| {
        canvas.push(p.clone());
        canvas
    };
    let paint = |mut canvas: Vec<String>| {
        canvas.push("moving".to_string());
        canvas
    };
    let c = cache.draw_cached_layer(key, false, Vec::new(), || "first".to_string(), replay, paint);
    assert_eq!(c, vec!["first", "moving"]);
    let c = cache.draw_cached_layer(key, false, Vec::new(), || unreachable!(), replay, paint);
    assert_eq!(c, vec!["first", "moving"]);
    let c = cache.draw_cached_layer(other, false, c, || "second".to_string(), replay, paint);
    assert_eq!(c, vec!["first", "moving", "second", "moving"]);
    let c = cache.draw_cached_layer(key, true, Vec::new(), || "third".to_string(), replay, paint);
    assert_eq!(c, vec!["third", "moving"]);
    assert_eq!(cache.layers.len(), 2);
    assert_eq!(cache.find(LayerCacheKey::from_bounds(1, 1, 1, 1)), None);
}

#[test]
fn every_120_draws_make_a_line_of_the_profile() {
    let mut p = LayerProfile::new();
    for _ in 0..119 {
        assert!(p.report_profile(1, 2, 3).is_none());
    }
    let sums = p.report_profile(1, 2, 3).unwrap();
    assert_eq!((sums.calls, sums.static_us, sums.dynamic_us, sums.replay_us), (120, 120, 240, 360));
    assert_eq!((p.calls, p.static_us), (120, 0));
}
