use lx_audiolabs::level::Level;
use lx_audiolabs::lucent_block::{block_correlation, counts_frame, ShownSpectra};
use lx_audiolabs::lucent_editor::{
    LucentEditor, LucentParams, Message, Meters, TickInput,
};
use lx_audiolabs::hold::PeakHolds;
use lx_audiolabs::lucent_view::{LucentPanel, PanelMeters, TickFeed, TickOutcome, Words};
use lx_audiolabs::named_relays;
use lx_audiolabs::registry::ResonanceLists;
use lx_audiolabs::relay_editor::{connection_text, RelayTelemetry};

fn f(x: f32) -> Level {
    Level::from_bits(x.to_bits())
}

fn x(l: Level) -> f32 {
    f32::from_bits(l.bits)
}

fn blend(p: Level, s: Level) -> Level {
    f(x(p) * (5.0 / 6.0) + x(s) * (1.0 / 6.0))
}

fn meters() -> PanelMeters {
    PanelMeters {
        peak_l: f(-6.0),
        peak_r: f(-7.0),
        hold: f(-3.0),
        hold_l: f(-3.0),
        hold_r: f(-4.0),
        correlation: f(0.5),
        balance: f(0.1),
    }
}

fn feed(now_ms: u64, relays: usize) -> TickFeed {
    TickFeed {
        mode: 1,
        lists: ResonanceLists {
            own: vec![(10, f(3.25))],
            relay: vec![(20, f(4.0), vec!["Kick".to_string(), "Bass".to_string()])],
        },
        areas: vec![(30, f(-20.0), vec!["Own".to_string(), "Kick".to_string()])],
        own_spectrum: Some(vec![f(-30.0); 4]),
        masking: Some(vec![f(-20.0); 4]),
        feeds: (0..relays).map(|i| (i as u8, format!("R{i}"), vec![f(-40.0); 4])).collect(),
        show_resonance: true,
        show_masking: true,
        meters: meters(),
        now_ms,
    }
}

fn tick(panel: &mut LucentPanel, feed: TickFeed) -> TickOutcome {
    let words = Words {
        hz: |bin: usize| format!("{:.0}", bin as f32 * 21.5),
        level: |l: Level| format!("{:.1}", x(l)),
    };
    panel.tick(feed, blend, &words)
}

#[test]
fn a_tick_shows_what_it_reads_and_the_texts_when_it_is_time() {
    let mut panel = LucentPanel::new(Some("vault".to_string()), 0);
    assert_eq!(panel.shown.resonance_text, "No resonances detected");
    let first = tick(&mut panel, feed(100, 2));
    assert!(first.changed);
    assert_eq!(first.relay_mask, 0b11);
    assert!(first.snapshot.is_none());
    assert_eq!(panel.shown.resonance_text, "No resonances detected");
    assert_eq!(panel.shown.meters, meters());
    assert_eq!(panel.shown.relays.len(), 2);
    tick(&mut panel, feed(500, 2));
    assert_eq!(
        panel.shown.resonance_text,
        "Own: 215 Hz 3.2\nGroup: 430 Hz 4.0 (Kick, Bass)"
    );
    assert_eq!(panel.shown.masking_text, "645 Hz  -20.0 dB (Own-Kick)");
    let mut busy = feed(600, 2);
    busy.own_spectrum = None;
    busy.masking = None;
    assert!(!tick(&mut panel, busy).changed);
    assert_eq!(panel.shown.own_spectrum, vec![f(-30.0); 4]);
    assert_eq!(panel.shown.masking, vec![f(-20.0); 4]);
}

#[test]
fn a_pressed_relay_stays_switched() {
    let mut panel = LucentPanel::new(None, 0);
    tick(&mut panel, feed(10, 3));
    panel.press_relay(1);
    panel.press_relay(9);
    let after = tick(&mut panel, feed(20, 3));
    assert_eq!(after.relay_mask, 0b101);
    assert!(!panel.shown.relays[1].active);
    assert!(panel.shown.relays[2].active);
}

#[test]
fn a_snapshot_is_handed_out_once() {
    let mut panel = LucentPanel::new(Some("vault".to_string()), 0);
    tick(&mut panel, feed(10, 1));
    assert_eq!(panel.snap_label(), "SNAP");
    panel.accum.press_snap();
    let snapshot = tick(&mut panel, feed(20, 1)).snapshot.unwrap();
    assert_eq!(snapshot.own, vec![(10, f(3.25))]);
    assert_eq!(snapshot.masking.len(), 1);
    assert_eq!(panel.shown.snap_blink, 71);
    assert_eq!(panel.snap_label(), "ANALYZING...");
    assert!(tick(&mut panel, feed(30, 1)).snapshot.is_none());
}

#[test]
fn the_main_panel_follows_the_mode() {
    let mut panel = LucentPanel::new(None, 0);
    let empty = panel.main_panel(1);
    assert!(empty.placeholder);
    assert!(empty.alone);
    tick(&mut panel, feed(10, 10));
    let view = panel.main_panel(1);
    let bar = view.relay_bar.unwrap();
    assert_eq!(bar.len(), 8);
    assert_eq!(bar[7], ("R7".to_string(), true));
    assert!(!view.alone && !view.placeholder && view.masking_switch);
    assert_eq!(view.curves.len(), 11);
    assert_eq!(view.curves[7].color, Some(0));
    assert_eq!(view.resonance_peaks, vec![(10, f(3.25)), (20, f(4.0))]);
    assert_eq!(view.masking.len(), 4);
    let standalone = panel.main_panel(0);
    assert!(standalone.relay_bar.is_none());
    assert!(standalone.alone && !standalone.masking_switch);
    assert_eq!(standalone.curves.len(), 1);
}

#[test]
fn only_heard_frames_enter_the_average() {
    let mix = |a: Level, b: Level| f(x(a) * 0.5 + x(b) * 0.5);
    let mut shown = ShownSpectra::new();
    let frame = vec![f(-10.0); 1024];
    shown.show_frame(true, &frame, counts_frame(f(-79.0)), &mix);
    assert_eq!(shown.average[0], f(-50.0));
    shown.show_frame(true, &frame, counts_frame(f(-80.0)), &mix);
    assert_eq!(shown.average[0], f(-50.0));
    assert_eq!(shown.bins, frame);
    shown.show_frame(false, &frame, true, &mix);
    assert_eq!(shown.bins[3], f(-90.0));
    assert_eq!(shown.average[3], f(-90.0));
}

#[test]
fn a_silent_channel_correlates() {
    assert_eq!(block_correlation(f(0.0), f(1.0), || f(0.3)), f(1.0));
    assert_eq!(block_correlation(f(1.0), f(1.0), || f(0.3)), f(0.3));
    assert_eq!(block_correlation(f(1.0), f(1.0), || f(-1.5)), f(-1.0));
}

fn tick_input() -> TickInput {
    TickInput {
        own_spectrum: vec![f(-20.0)],
        resonance: vec![(4, f(2.0)), (9, f(7.0)), (5, f(1.0)), (6, f(0.5))],
        masking: vec![f(-90.0), f(-30.0), f(-60.0), f(-40.0), f(-50.0)],
        feeds: vec![("A".to_string(), vec![f(-30.0)])],
        meters: Meters {
            output_peak: f(-1.0),
            peak_l: f(-1.0),
            peak_r: f(-2.0),
            holds: PeakHolds::new(f(-1.0)),
            phase_correlation: f(1.0),
            balance: f(0.0),
        },
    }
}

#[test]
fn the_older_editor_lists_three_findings() {
    let params = LucentParams { analyze_mode: 1, name: "Bus".to_string() };
    let mut editor = LucentEditor::boot(params, None);
    editor.update(Message::Tick, tick_input(), blend);
    let resonances = editor.listed_resonances();
    assert_eq!(resonances.len(), 3);
    let areas = editor.listed_masking();
    assert_eq!(areas[0], (1, f(-30.0)));
    assert_eq!(areas.len(), 3);
    let lines = vec!["a".to_string(), "b".to_string()];
    assert_eq!(editor.resonance_summary(&lines), "a\nb");
    assert_eq!(editor.masking_summary(&lines), "a\nb");
}

#[test]
fn dummy_relays_are_there_for_looking_at() {
    let pattern = vec![f(-30.0); 8];
    let ui = named_relays::LucentUiState::with_dummy_relays(vec![f(-9.0)], &pattern);
    assert!(!ui.relays.is_empty());
    assert_eq!(ui.relays[0].spectrum, pattern);
    assert_eq!(ui.own_spectrum, vec![f(-9.0)]);
}

#[test]
fn the_connection_is_told() {
    let mut t = RelayTelemetry {
        lucent_list: vec!["A".to_string()],
        connected: true,
        last_connected_ms: Some(10),
        now_ms: 20,
    };
    assert_eq!(connection_text(&t, "0.0"), "● Connected");
    t.connected = false;
    assert_eq!(connection_text(&t, "0.0"), "● No Lucent (10 ms ago)");
    t.now_ms = 2510;
    assert_eq!(connection_text(&t, "2.5"), "● No Lucent (last seen 2.5 s ago)");
    t.last_connected_ms = None;
    assert_eq!(connection_text(&t, "2.5"), "● No Lucent");
}
