use lx_audiolabs::aurum::{meter_level, plan_chain, Aurum, Block, HarmonicsMode, MonitorMode, TruePeakLimiter};
use lx_audiolabs::aurum_chain::{chain_stages, AurumStage};
use lx_audiolabs::aurum_editor::{output_line, AurumEditor, AurumMsg, AurumTab};
use lx_audiolabs::aurum_panel::{flipped, panel_line, panel_reset, AurumPanel};
use lx_audiolabs::aurum_params::{param_range, AurumParam, AurumParams};
use lx_audiolabs::hold::PeakHolds;
use lx_audiolabs::host::{Edit, ParamValue};
use lx_audiolabs::knob::Gesture;
use lx_audiolabs::level::Level;

fn f(x: f32) -> Level {
    Level::from_bits(x.to_bits())
}

fn x(l: Level) -> f32 {
    f32::from_bits(l.bits)
}

#[test]
fn parameters_start_where_they_are_declared() {
    let p = AurumParams::new();
    assert_eq!(p.clip_ceiling, f(-1.0));
    assert_eq!(p.sweet_lpf, f(35000.0));
    assert_eq!(p.comp_ratio, f(1.5));
    assert_eq!(p.sat_harmonics, 2);
    assert!(p.mb_mode && !p.bypass_active);
    assert_eq!(p.get(AurumParam::MbThreshSide), ParamValue::Number(f(-6.0)));
    assert_eq!(param_range(AurumParam::CompRatio), Some((f(1.2), f(3.0))));
    assert_eq!(param_range(AurumParam::CompLink), None);
}

#[test]
fn blocks_are_bypassed_skipped_or_run() {
    let mut a = Aurum::new(AurumParams::new());
    assert_eq!(a.begin_block(false, 1, 64), Block::Skipped);
    assert_eq!(a.begin_block(false, 2, 0), Block::Skipped);
    assert!(matches!(a.begin_block(false, 2, 64), Block::Run(_)));
    a.holds = PeakHolds::new(f(-1.0));
    a.params.bypass_active = true;
    assert_eq!(a.begin_block(true, 2, 64), Block::Bypassed);
    assert_eq!(a.holds.value, f(-1.0));
    a.params.bypass_active = false;
    a.limiter.gain = f(0.5);
    a.begin_block(true, 2, 64);
    assert_eq!((a.holds.value, a.limiter.gain), (f(-90.0), f(1.0)));
}

#[test]
fn linked_bands_share_a_threshold() {
    let mut p = AurumParams::new();
    p.comp_thresh_lo = f(-20.0);
    p.mb_thresh_mid_lo = f(-9.0);
    assert_eq!(plan_chain(&p).comp_thresh_hi, f(-12.0));
    p.comp_link = true;
    p.mb_fader_link = true;
    let plan = plan_chain(&p);
    assert_eq!(plan.comp_thresh_hi, f(-20.0));
    assert_eq!((plan.mb_thresh_hi, plan.mb_thresh_side), (f(-9.0), f(-9.0)));
    p.side_active = true;
    p.mono_active = true;
    assert_eq!(plan_chain(&p).monitor, MonitorMode::Side);
    p.sat_harmonics = 0;
    assert_eq!(plan_chain(&p).harmonics, HarmonicsMode::Even);
    assert_eq!(plan_chain(&p).tolerance, None);
    p.at_active = true;
    assert_eq!(plan_chain(&p).tolerance, Some(f(50.0)));
}

#[test]
fn the_monitor_comes_behind_the_limiter() {
    let mut p = AurumParams::new();
    p.mono_active = true;
    p.delta_active = true;
    p.mono_floor = f(120.0);
    let stages = chain_stages(&plan_chain(&p));
    assert_eq!(stages.len(), 13);
    assert_eq!(stages[0], AurumStage::Clip { mid_side: false });
    assert_eq!(
        stages[8..],
        [
            AurumStage::MonoFloor,
            AurumStage::OutputGain,
            AurumStage::LimitTruePeaks,
            AurumStage::Monitor(MonitorMode::Mono),
            AurumStage::Delta,
        ]
    );
    assert_eq!(chain_stages(&plan_chain(&AurumParams::new())).len(), 10);
}

#[test]
fn the_limiter_brings_peaks_to_the_ceiling() {
    let mut l = TruePeakLimiter::new();
    let ratio = |a: Level, b: Level| f(x(a) / x(b));
    assert_eq!(l.attack(f(0.5), f(-0.25), f(0.1), f(0.0), f(0.9), ratio), f(1.0));
    assert_eq!(l.attack(f(0.5), f(-1.8), f(0.1), f(0.0), f(0.9), ratio), f(0.5));
    assert_eq!(l.attack(f(0.1), f(0.1), f(0.1), f(-1.0), f(0.9), ratio), f(0.5));
    l.release(f(0.4), f(0.3), |g: Level| f(x(g) + 0.25));
    assert_eq!((l.gain, l.prev_l, l.prev_r), (f(0.75), f(0.4), f(0.3)));
    l.release(f(0.0), f(0.0), |_g| f(3.0));
    assert_eq!(l.gain, f(1.0));
}

#[test]
fn peaks_are_metered_in_decibels() {
    let to_db = |l: Level| f(20.0 * x(l).log10());
    assert_eq!(meter_level(f(0.0), &to_db), f(-90.0));
    assert_eq!(meter_level(f(1.0), &to_db), f(0.0));
    let mut a = Aurum::new(AurumParams::new());
    let levels = a.end_block(PeakHolds { value: f(1.0), left: f(0.0), right: f(1.0) }, to_db);
    assert_eq!((levels.both, levels.left, levels.right), (f(0.0), f(-90.0), f(0.0)));
    assert_eq!((a.holds.value, a.holds.left), (f(0.0), f(-90.0)));
    assert!(Aurum::has_balance(f(0.1)) && !Aurum::has_balance(f(0.0)));
    assert!(!a.reset(f(96000.0)));
    assert_eq!(a.sample_rate, f(96000.0));
}

#[test]
fn messages_become_edits() {
    let mut e = AurumEditor::new(AurumParams::new());
    let meters = e.meters;
    let r = e.update(AurumMsg::ClipCeilGesture(Gesture::Change(f(-2.0))), meters);
    assert_eq!(r.edits, vec![Edit::Change(AurumParam::ClipCeiling, ParamValue::Number(f(-2.0)))]);
    let r = e.update(AurumMsg::MbModeToggled, meters);
    let p = AurumParam::MbMode;
    assert_eq!(r.edits, vec![Edit::Begin(p), Edit::Change(p, ParamValue::Switch(false)), Edit::End(p)]);
    let r = e.update(AurumMsg::SatHarmCycled, meters);
    assert_eq!(r.edits[1], Edit::Change(AurumParam::SatHarmonics, ParamValue::Choice(0)));
    let r = e.update(AurumMsg::ResetAll, meters);
    assert!(r.reset_peak);
    assert_eq!(r.edits.len(), 18);
    assert_eq!(r.edits[10], Edit::Change(AurumParam::MbThreshSide, ParamValue::Number(f(-6.0))));
    assert!(e.update(AurumMsg::ResetPeak, meters).reset_peak);
    e.update(AurumMsg::SelectTab(1), meters);
    assert_eq!(e.shown_tab(), AurumTab::Color);
    e.update(AurumMsg::SelectTab(7), meters);
    assert_eq!(e.shown_tab(), AurumTab::Limit);
    let mut louder = meters;
    louder.peak_l = f(-3.0);
    e.update(AurumMsg::Tick, louder);
    assert_eq!(e.meters.peak_l, f(-3.0));
    assert_eq!(e.harmonics_label(), "MIXED");
    assert_eq!(e.limiter_label(), "MODERN");
}

#[test]
fn the_output_lines_show_the_reduction() {
    assert_eq!(output_line(f(0.0), "0.0", "-1.0", "-2.0"), "GR: 0.0 dB | L:-1.0 R:-2.0 dB");
    assert_eq!(output_line(f(-3.0), "-3.0", "-1.0", "-2.0"), "GR: -3.0 dB | L:-1.0 R:-2.0 dB");
    assert_eq!(panel_line(f(-0.01), "-0.0", "-1.0", "-2.0"), "GR 0.0 dB | L -1.0 R -2.0 dB");
}

#[test]
fn the_panel_lights_its_snapshot_button() {
    let mut p = AurumPanel::new(Some("/v".to_string()));
    assert_eq!(p.snap_label(), "SNAP");
    p.press_snap();
    for _ in 0..71 {
        p.tick();
    }
    assert_eq!(p.snap_label(), "ANALYZING...");
    p.tick();
    p.tick();
    assert_eq!(p.snap_label(), "SNAP");
    assert_eq!(p.shown_tab(), Some(AurumTab::Shape));
    p.toggle_setup();
    assert_eq!(p.shown_tab(), None);
    p.vault_path_input = " /new ".to_string();
    p.save_vault_path();
    assert_eq!(p.vault_path, Some("/new".to_string()));
    assert_eq!(panel_reset()[0], (AurumParam::ClipCeiling, f(0.8167)));
    assert!(flipped(f(0.0)) && !flipped(f(1.0)));
}
