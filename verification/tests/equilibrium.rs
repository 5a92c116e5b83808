use lx_audiolabs::equilibrium::{
    audible_bands, follows_power, metered_peaks, output_of, range_end, range_move, width_curve, AutoLoud, Controls, Equilibrium,
    ListenStep, PreMaster, PreMasterStep, RangeMove, WidthCurve,
};
use lx_audiolabs::equilibrium_chain::{
    balance_of, clamp_frame, correlation_of, loudness_offset, next_auto_gain, normalises_pan, pre_master_gain, sample_stages,
    scope_envelope, scope_gain, silent_bands, ListenMath, ListenRange, Stage,
};
use lx_audiolabs::equilibrium_editor::{
    format_pan, keeps_char, list_places, load_presets, may_reset_analysis, preset_file_name, preset_name, preset_settings,
    press_snap, EqPreset, PresetEntry, SnapLamp, Target,
};
use lx_audiolabs::equilibrium_egui::{fills_from_zero, loud_label, lx_hslider, lx_toggle, SliderResponse};
use lx_audiolabs::equilibrium_panel::{
    apply_offset, loud_button, press_loud, reset_analysis, reset_edits, switch_label, BandReadings, EqFeed, EqMeters,
    EqOutcome, EqPanel, LoudButton, StereoSettings,
};
use lx_audiolabs::equilibrium_params::{param_by_name, param_range, reset_values, switches_to_reset, EquilibriumParams, Param};
use lx_audiolabs::equilibrium_report::{snap_markdown, table_bin, SnapTexts};
use lx_audiolabs::host::{Edit, ParamValue};
use lx_audiolabs::level::Level;
use lx_audiolabs::pre_master::{master_levels, StereoBlock};
use lx_audiolabs::ticker::{is_due, Ticker, RELAY_TICK_NS, TICK_NS};
use lx_audiolabs::wide::Wide;

fn f(x: f32) -> Level {
    Level::from_bits(x.to_bits())
}

fn x(l: Level) -> f32 {
    f32::from_bits(l.bits)
}

fn w(x: f64) -> Wide {
    Wide { bits: x.to_bits() }
}

fn d(x: Wide) -> f64 {
    f64::from_bits(x.bits)
}

fn controls() -> Controls {
    Controls {
        sample_rate: f(48000.0),
        mono_floor: f(0.0),
        solo: [false; 5],
        bypass: false,
        mono: false,
        delta: false,
        listen: false,
        auto_gain: false,
        reset_peak: false,
        reset_analysis: false,
    }
}

#[test]
fn solo_decides_what_is_heard() {
    assert_eq!(audible_bands(&[false; 5]), [true; 5]);
    assert_eq!(audible_bands(&[false, true, false, false, true]), [false, true, false, false, true]);
}

#[test]
fn the_chain_keeps_its_order() {
    let mut eq = Equilibrium::new();
    let plain = sample_stages(&eq.begin_block(&controls()));
    assert_eq!(plain.len(), 2 + 15 + 3);
    assert_eq!(plain[0], Stage::LowCut);
    assert_eq!(plain[1], Stage::Crossover);
    assert_eq!(*plain.last().unwrap(), Stage::Clamp);
    let mut c = controls();
    c.sample_rate = f(96000.0);
    c.mono_floor = f(120.0);
    c.solo = [true, false, false, false, false];
    c.mono = true;
    c.delta = true;
    c.auto_gain = true;
    let full = sample_stages(&eq.begin_block(&c));
    assert_eq!(
        full[0..10],
        [
            Stage::LowCut,
            Stage::HighCut,
            Stage::Crossover,
            Stage::BandGain(0),
            Stage::BandWidth(0),
            Stage::BandPan(0),
            Stage::BandGain(1),
            Stage::BandWidth(1),
            Stage::BandPan(1),
            Stage::BandMute(1),
        ]
    );
    assert_eq!(
        full[full.len() - 7..],
        [Stage::Sum, Stage::MonoFloor, Stage::Mono, Stage::Delta, Stage::OutputGain, Stage::AutoGain, Stage::Clamp]
    );
}

#[test]
fn the_mono_floor_is_tuned_when_it_changes() {
    let mut eq = Equilibrium::new();
    let tuning = eq.reset(f(48000.0), f(0.5));
    assert_eq!(tuning.mono_floor, None);
    assert_eq!(tuning.low_cut, f(8.0));
    assert_eq!(tuning.high_cut, None);
    assert_eq!(tuning.crossovers, [f(80.0), f(300.0), f(2000.0), f(6000.0)]);
    assert_eq!(eq.reset(f(88_200.0), f(0.5)).high_cut, Some(f(35_000.0)));
    assert_eq!(eq.reset(f(88_199.0), f(0.5)).high_cut, None);
    eq.reset(f(48000.0), f(0.5));
    let mut c = controls();
    c.mono_floor = f(100.0);
    let first = eq.begin_block(&c);
    assert!(first.retune_mono_floor && first.mono_floor_on && !first.high_cut);
    assert!(!eq.begin_block(&c).retune_mono_floor);
    c.sample_rate = f(88200.0);
    let faster = eq.begin_block(&c);
    assert!(faster.retune_mono_floor && faster.high_cut);
    assert_eq!(eq.reset(f(44100.0), f(80.0)).mono_floor, Some(f(80.0)));
}

#[test]
fn a_capture_plays_mono_and_delta_in_turn() {
    let mut eq = Equilibrium::new();
    eq.snap = press_snap(&Some("/v".to_string())).unwrap();
    assert!(!eq.begin_block(&controls()).mono);
    eq.snap_captured();
    assert!(eq.begin_block(&controls()).mono);
    eq.snap_captured();
    let plan = eq.begin_block(&controls());
    assert!(plan.delta && !plan.mono);
    let (_, goes_on) = eq.snap_captured();
    assert!(!goes_on);
    assert!(press_snap(&None).is_none());
}

#[test]
fn bypass_sends_the_input_and_meters_nothing() {
    let dry = vec![(f(0.1), f(0.2))];
    let wet = vec![(f(0.9), f(0.8))];
    assert_eq!(output_of(true, dry.clone(), wet.clone()), dry);
    assert_eq!(output_of(false, dry.clone(), wet.clone()), wet);
    let peaks = metered_peaks(false, &vec![f(0.3), f(0.5)], &vec![f(0.7), f(0.1)]);
    assert_eq!((peaks.value, peaks.left, peaks.right), (f(0.7), f(0.5), f(0.7)));
    assert_eq!(metered_peaks(true, &vec![f(0.3)], &vec![f(0.7)]).value, f(0.0));
    let peaks = metered_peaks(false, &vec![f(-0.5), f(0.25)], &vec![f(0.125), f(-0.75)]);
    assert_eq!((peaks.value, peaks.left, peaks.right), (f(0.75), f(0.5), f(0.75)));
}

#[test]
fn low_bands_widen_less() {
    assert_eq!(width_curve(0, f(1.5)), WidthCurve::Quarter);
    assert_eq!(width_curve(1, f(1.5)), WidthCurve::Partial);
    assert_eq!(width_curve(2, f(1.5)), WidthCurve::Full);
    assert_eq!(width_curve(0, f(1.0)), WidthCurve::Full);
}

#[test]
fn the_output_is_clamped() {
    assert_eq!(clamp_frame((f(1.5), f(-3.0))), (f(1.0), f(-1.0)));
    assert_eq!(clamp_frame((f(0.25), f(-0.5))), (f(0.25), f(-0.5)));
}

#[test]
fn the_range_of_a_band_follows_its_power() {
    let math = ListenMath {
        average: |p: Wide, r: Wide| w(0.01 * d(p) + 0.99 * d(r)),
        gate: |r: Wide| w((d(r) * 0.01).max(1e-6)),
        fast: |e: Wide, p: Wide| w(d(e) + 0.15 * (d(p) - d(e))),
        slow: |e: Wide, p: Wide| w(d(e) + 0.02 * (d(p) - d(e))),
    };
    let mut r = ListenRange::new();
    r.listen(w(1.0e-9), &math);
    assert!(!r.lo.is_finite());
    r.listen(w(1.0), &math);
    assert_eq!((d(r.lo), d(r.hi)), (1.0, 1.0));
    r.listen(w(2.0), &math);
    assert_eq!(d(r.lo), 1.0 + 0.02 * (2.0 - 1.0));
    assert_eq!(d(r.hi), 1.0 + 0.15 * (2.0 - 1.0));
    assert_eq!(range_end(w(f64::INFINITY), w(3.0)), w(3.0));
    assert_eq!(range_end(w(2.0), w(3.0)), w(2.0));
    assert_eq!(range_move(w(1.0), w(2.0), w(0.0), w(0.0)), RangeMove::Hold);
    assert_eq!(silent_bands(), [f(-90.0); 5]);
}

#[test]
fn listening_counts_and_clears() {
    let mut eq = Equilibrium::new();
    assert_eq!(eq.listen_step(true, 64), ListenStep::Measured(64));
    assert_eq!(eq.listen_step(true, 64), ListenStep::Measured(128));
    assert_eq!(eq.listen_step(false, 64), ListenStep::Cleared);
    assert_eq!(eq.listen_step(false, 64), ListenStep::Idle);
}

#[test]
fn peaks_are_held_until_they_are_reset() {
    let mut eq = Equilibrium::new();
    eq.hold_peaks(f(-3.0), f(-3.0), f(-9.0));
    eq.hold_peaks(f(-6.0), f(-6.0), f(-7.0));
    assert_eq!((eq.holds.value, eq.holds.left, eq.holds.right), (f(-3.0), f(-3.0), f(-7.0)));
    let mut c = controls();
    c.reset_peak = true;
    eq.begin_block(&c);
    assert_eq!(eq.holds.value, f(-90.0));
}

#[test]
fn the_automatic_gain_follows_the_powers() {
    assert!(follows_power(true, 10, f(0.1), f(0.1)));
    assert!(!follows_power(true, 0, f(0.1), f(0.1)));
    let mixed = |g: Level| f(0.95 * x(g) + 0.05 * 2.0);
    assert_eq!(next_auto_gain(f(1.0), true, 10, f(0.4), f(0.1), mixed), f(0.95 + 0.05 * 2.0));
    assert_eq!(next_auto_gain(f(1.7), true, 10, f(0.0), f(0.1), mixed), f(1.0));
    assert_eq!(next_auto_gain(f(1.7), false, 10, f(0.4), f(0.1), mixed), f(1.0));
}

#[test]
fn balance_and_correlation_need_a_signal() {
    assert_eq!(balance_of(f(0.0), |_s| f(9.0)), f(0.0));
    assert_eq!(balance_of(f(2.0), |s: Level| f(0.5 / x(s))), f(0.25));
    assert_eq!(correlation_of(f(0.0), |_d| f(0.5)), f(1.0));
    assert_eq!(correlation_of(f(1.0), |_d| f(-1.5)), f(-1.0));
    assert_eq!(correlation_of(f(1.0), |_d| f(0.5)), f(0.5));
    assert!(normalises_pan(f(0.7)) && !normalises_pan(f(0.001)));
}

#[test]
fn the_scope_is_enlarged_at_most_twentyfold() {
    let gain = |e: Level| f(0.9 / x(e));
    assert_eq!(scope_gain(f(0.9), gain), f(0.9 / 0.9));
    assert_eq!(scope_gain(f(0.001), gain), f(20.0));
    assert_eq!(scope_gain(f(0.000001), gain), f(0.0));
    let rise = |_e: Level, p: Level| p;
    let fall = |e: Level, _p: Level| e;
    assert_eq!(scope_envelope(f(0.2), f(0.5), rise, fall), f(0.5));
    assert_eq!(scope_envelope(f(0.2), f(0.1), rise, fall), f(0.2));
}

#[test]
fn the_loudness_is_measured_once_asked_for() {
    let mut loud = AutoLoud { trigger: true, measuring: false };
    assert!(loud.begin());
    assert!(!loud.begin());
    assert!(loud.measuring);
    assert!(!loud.finish(true, 99, 100));
    assert!(loud.finish(true, 100, 100));
    assert!(!loud.measuring);
    assert_eq!(loudness_offset(f(6.0), f(2.5)), f(2.5));
    assert_eq!(loudness_offset(f(-40.0), f(2.5)), f(-24.0));
}

#[test]
fn the_pre_master_stage_finds_its_gain_once() {
    let gate = f(0.003);
    let mut p = PreMaster::new();
    assert_eq!(p.step(true, 100, f(0.001), 64, gate), PreMasterStep::Apply);
    assert_eq!(p.step(true, 100, f(0.002), 64, gate), PreMasterStep::Apply);
    assert_eq!(p.measure_count, 0);
    assert_eq!(p.step(true, 100, f(0.5), 128, gate), PreMasterStep::FindGain(f(0.5)));
    p.set_gain(pre_master_gain(f(1.4), f(0.063), f(3.98)));
    assert_eq!(p.gain, f(1.4));
    assert_eq!(p.step(true, 100, f(0.9), 128, gate), PreMasterStep::Apply);
    assert_eq!(p.step(true, 100, f(0.9), u32::MAX, gate), PreMasterStep::Apply);
    assert_eq!(p.step(false, 100, f(0.9), 128, gate), PreMasterStep::Off);
    assert_eq!(p.gain, f(1.0));
    assert_eq!(pre_master_gain(f(9.0), f(0.063), f(3.98)), f(3.98));
}

fn zero_params() -> EquilibriumParams {
    let z = w(0.0);
    EquilibriumParams {
        low_gain: z,
        bass_gain: z,
        mid_gain: z,
        high_mid_gain: z,
        high_gain: z,
        low_width: z,
        bass_width: z,
        mid_width: z,
        high_mid_width: z,
        high_width: z,
        low_pan: z,
        bass_pan: z,
        mid_pan: z,
        high_mid_pan: z,
        high_pan: z,
        mono_floor: z,
        output_gain: z,
        solo_low: false,
        solo_bass: false,
        solo_mid: false,
        solo_high_mid: false,
        solo_high: false,
        mono_active: false,
        delta_active: false,
        listen_active: false,
        auto_gain_active: false,
        bypass_active: false,
        pre_master_active: false,
        pre_master_target_db: z,
    }
}

#[test]
fn parameters_are_loaded_by_name() {
    let mut p = zero_params();
    p.load_state(&Some(vec![
        ("mid_gain".to_string(), w(3.5)),
        ("solo_high".to_string(), w(-0.0)),
        ("mono_active".to_string(), w(0.25)),
        ("unheard_of".to_string(), w(1.0)),
    ]));
    assert_eq!(d(p.mid_gain), 3.5);
    assert!(p.mono_active && !p.solo_high);
    assert_eq!(param_by_name(&"pre_master_target_db".to_string()), Some(Param::PreMasterTargetDb));
    assert_eq!(param_by_name(&"nothing".to_string()), None);
    let mut q = zero_params();
    q.load_state(&None);
    assert_eq!(d(q.mid_gain), 0.0);
}

#[test]
fn a_reset_stays_in_range() {
    assert_eq!(param_range(Param::LowGain), (-12, 12));
    assert_eq!(param_range(Param::HighWidth), (0, 150));
    assert_eq!(param_range(Param::PreMasterTargetDb), (-6, -3));
    for (p, v) in reset_values() {
        let (lo, hi) = param_range(p);
        assert!(lo <= v && v <= hi);
    }
    assert!(reset_values().contains(&(Param::LowWidth, 100)));
    assert!(switches_to_reset().contains(&Param::BypassActive));
    assert!(switches_to_reset().contains(&Param::AutoGainActive));
}

fn preset(level: f32) -> EqPreset {
    EqPreset {
        bands: [f(level); 5],
        tolerances: [f(2.0); 5],
        pans: [f(0.0); 5],
        widths: [f(1.0); 5],
        mono_floor_hz: f(0.0),
    }
}

#[test]
fn the_first_preset_is_pink_noise() {
    let custom = vec![PresetEntry { name: "Rock".to_string(), path: Some("r.md".to_string()), preset: preset(-3.0) }];
    let list = load_presets([f(1.5); 5], custom);
    assert_eq!(list.len(), 2);
    assert_eq!(list[0].path, None);
    assert_eq!(list_places(&list, false), vec![0]);
    assert_eq!(list_places(&list, true), vec![1]);
    let mut target = Target { levels: [f(0.0); 5], tolerances: [f(0.0); 5], selected: None };
    assert!(target.select(&list, 1).is_some());
    assert_eq!(target.levels, [f(-3.0); 5]);
    assert!(target.select(&list, 9).is_none());
    assert_eq!(target.selected, Some(1));
    assert!(!target.apply_analysis(f(1.0), f(100.0), [f(5.0); 5], [f(1.0); 5]));
    assert!(target.apply_analysis(f(1.0), f(101.0), [f(5.0); 5], [f(1.0); 5]));
    assert_eq!(target.levels, [f(5.0); 5]);
    target.reset(&list, [f(1.5); 5]);
    assert_eq!(target.selected, Some(0));
    assert_eq!(preset_settings(&preset(0.0)).len(), 11);
    assert_eq!(may_reset_analysis(f(1.0)), may_reset_analysis(f(0.9)));
}

#[test]
fn preset_files_have_safe_names() {
    assert_eq!(preset_file_name(&"My/Preset: 1.0".to_string()), "MyPreset 10.md");
    assert_eq!(preset_file_name(&"Größe-2_b".to_string()), "Größe-2_b.md");
    assert!(keeps_char('x', true) && !keeps_char('/', false) && keeps_char('-', false));
    assert_eq!(preset_name(&"  Jazz ".to_string(), 4), "Jazz");
    assert_eq!(preset_name(&"   ".to_string(), 4), "User Preset 5");
}

#[test]
fn the_snapshot_lamp_follows_the_capture() {
    let vault = Some("/v".to_string());
    let mut lamp = SnapLamp { snap_active: false, blink_counter: 0 };
    assert_eq!(lamp.label(&None), "SET VAULT");
    assert_eq!(lamp.label(&vault), "SNAP");
    assert!(!lamp.tick(true, false, f(0.0), &vault).write_snapshot);
    assert_eq!(lamp.label(&vault), "ANALYZE...");
    assert!(lamp.tick(false, false, f(-0.2), &vault).write_snapshot);
    assert!(lamp.tick(false, false, f(-0.2), &vault).apply_offset);
    assert!(!lamp.tick(false, true, f(-0.2), &vault).apply_offset);
    assert!(!lamp.tick(false, false, f(0.05), &vault).apply_offset);
}

#[test]
fn pans_are_written_out() {
    assert_eq!(format_pan(f(0.005), "1"), "C");
    assert_eq!(format_pan(f(-0.5), "50"), "L 50%");
    assert_eq!(format_pan(f(0.25), "25"), "R 25%");
}

#[test]
fn a_snapshot_lists_twelve_frequencies() {
    let column = |s: &str| vec![s.to_string(); 12];
    let md = snap_markdown(&SnapTexts {
        peak_l: "-3.0".to_string(),
        peak_r: "-4.0".to_string(),
        correlation: "0.90".to_string(),
        stereo: column("-20.0"),
        mono: column("-21.0"),
        delta: column("-60.0"),
        bands: vec!["-9.0".to_string(); 5],
    });
    assert!(md.starts_with("---\nplugin: equilibrium\ntype: snapshot\n---\n"));
    assert!(md.contains("| Peak | -3.0 dB | -4.0 dB |\n"));
    assert_eq!(md.matches("| 10k | ").count(), 3);
    assert_eq!((table_bin(4, 1024), table_bin(2000, 1024)), (4, 1023));
}

#[test]
fn sliders_and_switches_call_the_host() {
    let still = SliderResponse { double_clicked: false, secondary_clicked: false, drag_started: false, dragged: None, drag_stopped: false };
    assert!(lx_hslider(Param::MidGain, f(0.5), still).is_empty());
    let drag = SliderResponse { drag_started: true, dragged: Some(f(1.5)), ..still };
    assert_eq!(
        lx_hslider(Param::MidGain, f(0.5), drag),
        vec![Edit::Begin(Param::MidGain), Edit::Change(Param::MidGain, ParamValue::Number(f(1.0)))]
    );
    let stop = SliderResponse { drag_stopped: true, ..still };
    assert_eq!(lx_hslider(Param::MidGain, f(0.5), stop), vec![Edit::End(Param::MidGain)]);
    let reset = SliderResponse { secondary_clicked: true, ..still };
    assert_eq!(lx_hslider(Param::MidGain, f(0.5), reset)[1], Edit::Change(Param::MidGain, ParamValue::Number(f(0.5))));
    assert!(lx_toggle(Param::SoloMid, f(1.0), false).is_empty());
    assert_eq!(lx_toggle(Param::SoloMid, f(1.0), true)[1], Edit::Change(Param::SoloMid, ParamValue::Switch(false)));
    assert_eq!(lx_toggle(Param::SoloMid, f(0.0), true)[1], Edit::Change(Param::SoloMid, ParamValue::Switch(true)));
    assert!(fills_from_zero(f(-12.0), f(12.0)) && !fills_from_zero(f(0.0), f(150.0)));
    assert_eq!(loud_label(true), "MEASURING...");
}

fn feed(target_band: f32, snap_active: bool) -> EqFeed {
    EqFeed {
        bands: BandReadings {
            band_levels: [f(target_band); 5],
            listen_levels: [f(-12.0); 5],
            listen_tolerances: [f(2.5); 5],
            listen_level_min: [f(-20.0); 5],
            listen_level_max: [f(-6.0); 5],
            listen_samples: f(500.0),
        },
        meters: EqMeters {
            correlation: f(0.5),
            peak_l: f(-6.0),
            peak_r: f(-7.0),
            hold_l: f(-3.0),
            hold_r: f(-4.0),
            hold: f(-3.0),
            balance: f(0.1),
        },
        measuring: false,
        offset: f(0.0),
        output_gain: f(3.0),
        snap_active,
    }
}

fn tick(p: &mut EqPanel, feed: &EqFeed) -> EqOutcome {
    p.tick(feed, &|a: Level, b: Level| f(f32::from_bits(a.bits) + f32::from_bits(b.bits)))
}

fn rock() -> PresetEntry {
    PresetEntry { name: "Rock".to_string(), path: Some("r.md".to_string()), preset: preset(-3.0) }
}

#[test]
fn equal_ticks_change_nothing() {
    let mut p = EqPanel::new(Some("/v".to_string()), vec![rock()], [f(1.5); 5]);
    assert_eq!(p.target.levels, [f(0.0); 5]);
    assert_eq!(p.target.tolerances, [f(1.5); 5]);
    assert!(tick(&mut p, &feed(-10.0, false)).changed);
    assert!(!tick(&mut p, &feed(-10.0, false)).changed);
    assert!(tick(&mut p, &feed(-9.0, false)).changed);
    assert!(tick(&mut p, &feed(f32::NAN, false)).changed);
    assert!(tick(&mut p, &feed(f32::NAN, false)).changed);
    assert!(tick(&mut p, &feed(0.0, false)).changed);
    assert!(!tick(&mut p, &feed(-0.0, false)).changed);
    assert_eq!(p.shown.spectrum.band_levels, [f(0.0); 5]);
}

#[test]
fn a_capture_is_written_when_it_ends() {
    let mut p = EqPanel::new(Some("/v".to_string()), Vec::new(), [f(1.5); 5]);
    assert!(!tick(&mut p, &feed(-10.0, true)).action.write_snapshot);
    assert!(tick(&mut p, &feed(-10.0, true)).changed);
    assert_eq!(p.shown.lamp.blink_counter, 2);
    assert!(tick(&mut p, &feed(-10.0, false)).action.write_snapshot);
    assert!(!tick(&mut p, &feed(-10.0, false)).action.write_snapshot);
    let mut loud = feed(-10.0, false);
    loud.offset = f(-2.0);
    let applied = tick(&mut p, &loud);
    assert!(applied.action.apply_offset);
    assert_eq!(applied.gain, Some(f(1.0)));
    assert_eq!(applied.offset, f(0.0));
    loud.offset = applied.offset;
    assert_eq!(tick(&mut p, &loud).gain, None);
    loud.offset = f(20.0);
    assert_eq!(tick(&mut p, &loud).gain, Some(f(12.0)));
    assert_eq!(apply_offset(f(-20.0)), (f(-12.0), f(0.0)));
    loud.measuring = true;
    let waiting = tick(&mut p, &loud);
    assert!(!waiting.action.apply_offset);
    assert_eq!((waiting.gain, waiting.offset), (None, f(20.0)));
}

#[test]
fn a_saved_profile_is_the_target() {
    let mut p = EqPanel::new(None, vec![rock()], [f(1.5); 5]);
    let settings = p.pick(1).unwrap();
    assert_eq!(settings[0], (Param::LowWidth, f(1.0)));
    assert_eq!(p.generation, 1);
    assert!(p.pick(2).is_none());
    assert_eq!(p.generation, 1);
    tick(&mut p, &feed(-10.0, false));
    let stereo =
        StereoSettings { pans: [f(0.5); 5], widths: [f(90.0); 5], mono_floor_hz: f(120.0) };
    p.name_input = " My/Mix ".to_string();
    let save = p.profile_to_save(&stereo);
    assert_eq!(save.name, "My/Mix");
    assert_eq!(save.file, "MyMix.md");
    assert_eq!(save.folder, None);
    assert_eq!(save.preset.bands, [f(-3.0); 5]);
    assert_eq!(save.preset.tolerances, [f(2.0); 5]);
    assert_eq!(save.preset.mono_floor_hz, f(120.0));
    p.profile_saved(vec![rock(), rock()]);
    assert_eq!(p.presets.len(), 3);
    assert_eq!(p.name_input, "");
    assert_eq!(p.profile_to_save(&stereo).name, "User Preset 4");
    assert!(!p.apply_analysis(f(0.5)));
    assert!(p.apply_analysis(f(1.0)));
    assert_eq!(p.target.levels, [f(-12.0); 5]);
    tick(&mut p, &feed(-10.0, false));
    assert_eq!(p.profile_to_save(&stereo).preset.tolerances, [f(2.5); 5]);
}

#[test]
fn a_reset_goes_back_to_the_built_in_profile() {
    let mut p = EqPanel::new(Some(String::new()), vec![rock()], [f(1.5); 5]);
    p.pick(1);
    let reset = p.reset_all();
    assert_eq!(reset.offset, f(0.0));
    assert!(reset.reset_analysis);
    let calls = reset.edits;
    assert_eq!(p.target.levels, [f(0.0); 5]);
    assert_eq!(p.target.selected, Some(0));
    assert_eq!(p.generation, 2);
    assert_eq!(calls.len(), 3 * (18 + 11));
    assert_eq!(calls, reset_edits());
    assert_eq!(calls[1], Edit::Change(Param::LowGain, ParamValue::Choice(0)));
    assert!(calls.contains(&Edit::Change(Param::AutoGainActive, ParamValue::Switch(false))));
    assert_eq!(calls[55], Edit::Change(Param::MonoActive, ParamValue::Switch(false)));
}

#[test]
fn the_panel_asks_for_a_folder() {
    let mut p = EqPanel::new(None, vec![rock()], [f(1.5); 5]);
    assert!(p.press_snap().is_none());
    assert!(p.show_setup);
    p.press_setup();
    assert!(!p.show_setup);
    p.press_setup();
    p.cancel_setup();
    assert!(!p.show_setup);
    let list = p.preset_list();
    assert!(list.asks_folder);
    assert_eq!(list.factory[0].label, "> Pink Noise");
    assert!(list.factory[0].selected);
    assert_eq!(list.saved[0].index, 1);
    assert_eq!(list.saved[0].label, "> Rock");
    assert!(!list.saved[0].selected);
    p.press_setup();
    p.folder_saved("/v".to_string(), Vec::new());
    assert!(!p.show_setup);
    assert_eq!(p.presets.len(), 1);
    assert!(!p.preset_list().asks_folder);
    assert_eq!(p.press_snap().unwrap().phase, 1);
}

#[test]
fn the_loudness_waits_for_the_pre_master() {
    assert!(!press_loud(f(1.0)));
    assert!(press_loud(f(0.5)));
    assert_eq!(loud_button(f(1.0), true, f(3.0)), LoudButton::Locked);
    assert_eq!(loud_button(f(0.0), true, f(3.0)), LoudButton::Measuring);
    assert_eq!(loud_button(f(0.0), false, f(-3.0)), LoudButton::Active);
    assert_eq!(loud_button(f(0.0), false, f(0.05)), LoudButton::Idle);
    assert_eq!(switch_label(f(1.0), "LISTEN", "LISTEN ON"), "LISTEN ON");
    assert_eq!(switch_label(f(0.0), "LISTEN", "LISTEN ON"), "LISTEN");
    assert!(reset_analysis(f(0.5)).is_none());
    let fresh = reset_analysis(f(1.0)).unwrap();
    assert_eq!(fresh.levels, [f(-90.0); 5]);
    assert_eq!(fresh.tolerances, [f(0.0); 5]);
    assert_eq!(fresh.samples, f(0.0));
}

#[test]
fn the_measured_peak_sets_the_gain_of_its_block() {
    let mut stage = PreMaster::new();
    let linear = |db: Level| f(10f32.powf(f32::from_bits(db.bits) / 20.0));
    let divide = |a: Level, b: Level| f(f32::from_bits(a.bits) / f32::from_bits(b.bits));
    let scale = |a: Level, g: Level| f(f32::from_bits(a.bits) * f32::from_bits(g.bits));
    let m = master_levels(f(0.0), linear);
    assert_eq!(m.target, f(1.0));
    let block = |v: f32| StereoBlock { left: vec![f(v); 10], right: vec![f(v / 2.0); 10] };
    let out = stage.master_block(true, 15, &m, block(-0.5), &divide, &scale);
    assert_eq!(out.left, vec![f(-0.5); 10]);
    let out = stage.master_block(true, 15, &m, block(0.25), &divide, &scale);
    assert_eq!(out.left, vec![f(0.5); 10]);
    assert_eq!(out.right, vec![f(0.25); 10]);
    let out = stage.master_block(false, 15, &m, block(0.25), &divide, &scale);
    assert_eq!(out.left, vec![f(0.25); 10]);
}

#[test]
fn a_tick_is_due_after_its_interval() {
    let mut t = Ticker::new(1_000, TICK_NS);
    assert!(!t.draw(TICK_NS));
    assert!(t.draw(TICK_NS + 1_000));
    assert!(!t.draw(TICK_NS + 2_000));
    assert!(!is_due(5, 0, RELAY_TICK_NS));
    assert!(is_due(0, 100_000_000, RELAY_TICK_NS));
}
