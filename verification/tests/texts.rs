use lx_audiolabs::level::Level;
use lx_audiolabs::lucent_editor::{masking_line, resonance_line, LucentEditor, LucentParam, LucentParams, Message, Meters, RelayBar, TickInput};
use lx_audiolabs::hold::PeakHolds;
use lx_audiolabs::host::{Edit, ParamValue};
use lx_audiolabs::mode::{mode_label, mode_name, next_mode};
use lx_audiolabs::report::{format_masking_text, format_resonance_text, snap_markdown, snapshot_name, yaml_name, Finding};
use lx_audiolabs::snapshot::{
    highest_snapshot, read_snap_number, snap_filename, snap_mode, snap_source, snap_threshold, SnapMode, SnapSource, SnapState,
};
use lx_audiolabs::text::{chars_of, join, lower_text, padded_text, parse_u32, push_decimal, split, string_of, trim_string};
use lx_audiolabs::vault::{path_or_empty, vault_path_of};

fn f(x: f32) -> Level {
    Level::from_bits(x.to_bits())
}

fn strings(list: &[&str]) -> Vec<String> {
    list.iter().map(|s| s.to_string()).collect()
}

fn finding(hz: &str, level: &str, names: &[&str]) -> Finding {
    Finding { hz: hz.to_string(), level: level.to_string(), names: strings(names) }
}

#[test]
fn numbers_are_written_in_decimal() {
    for (n, t) in [(0u64, "0"), (7, "7"), (10, "10"), (1905, "1905"), (u64::MAX, "18446744073709551615")] {
        let mut s = "n".to_string();
        push_decimal(&mut s, n);
        assert_eq!(s, format!("n{t}"));
    }
    assert_eq!(padded_text(7, 3), "007");
    assert_eq!(padded_text(12345, 3), "12345");
}

#[test]
fn numbers_are_read_as_the_standard_library_reads_them() {
    for t in ["0", "007", "+5", "-5", "", "+", "4294967295", "4294967296", "12a", " 3"] {
        assert_eq!(parse_u32(&chars_of(t)), t.parse::<u32>().ok(), "{t}");
    }
}

#[test]
fn texts_are_trimmed_and_split() {
    for t in ["", "  ", " a b ", "\tx\n", "\u{a0}y\u{2003}", "z"] {
        assert_eq!(trim_string(&t.to_string()), t.trim());
    }
    let parts: Vec<String> = split(&chars_of("|a||b"), '|').iter().map(string_of).collect();
    assert_eq!(parts, strings(&["", "a", "", "b"]));
    assert_eq!(join(&strings(&["a", "b", "c"]), ", "), "a, b, c");
    assert_eq!(join(&vec![], ", "), "");
    assert_eq!(string_of(&lower_text(&chars_of("EQ1 Ä"))), "eq1 Ä");
}

#[test]
fn snapshots_are_numbered_on() {
    assert_eq!(read_snap_number(&"SNAPSHOT-007.md".to_string()), Some(7));
    assert_eq!(read_snap_number(&"other_007.md".to_string()), None);
    let names = strings(&["SNAPSHOT-001.md", "SNAPSHOT-012.md", "notes.md", "SNAPSHOT-x.md"]);
    assert_eq!(highest_snapshot(&names), 12);
    let next = snap_filename(&names);
    assert_eq!(next, "SNAPSHOT-013.md");
    assert!(!names.contains(&next));
    assert_eq!(snap_filename(&vec![]), "SNAPSHOT-001.md");
    assert_eq!(read_snap_number(&next), Some(13));
}

#[test]
fn a_capture_runs_through_three_phases() {
    let mut s = SnapState { phase: 1, active: true };
    assert_eq!(s.captured(), SnapMode::Stereo);
    assert!(s.mono(false));
    assert_eq!(s.captured(), SnapMode::Mono);
    assert!(s.delta(false));
    assert_eq!(s.captured(), SnapMode::Delta);
    assert_eq!((s.phase, s.active), (0, false));
    assert_eq!((snap_threshold(1), snap_threshold(2), snap_threshold(3)), (60, 30, 30));
    assert_eq!(snap_source(0), SnapSource::Idle);
    assert_eq!(snap_source(3), SnapSource::Difference);
    assert_eq!(snap_mode(3), SnapMode::Delta);
}

#[test]
fn names_are_quoted_for_the_front_matter() {
    assert_eq!(yaml_name(&"Drum \"Bus\"".to_string()), "\"Drum \\\"Bus\\\"\"");
    assert_eq!(snapshot_name(&"  ".to_string()), "Lucent");
    assert_eq!(snapshot_name(&"Bus".to_string()), "Bus");
}

#[test]
fn findings_are_listed() {
    assert_eq!(format_resonance_text(&vec![], &vec![]), "No resonances detected");
    let text = format_resonance_text(&vec![finding("440", "7.0", &[])], &vec![finding("80", "3.0", &["Kick", "Bass"])]);
    assert_eq!(text.lines().count(), 2);
    assert!(text.contains("440") && text.contains("Kick, Bass"));
    assert_eq!(format_masking_text(0, 2, &vec![finding("80", "-9.0", &[])]), "Standalone — no masking");
    assert_eq!(format_masking_text(1, 0, &vec![finding("80", "-9.0", &[])]), "No masking detected");
    assert!(format_masking_text(1, 1, &vec![finding("80", "-9.0", &["Own", "Kick"])]).contains("80"));
}

#[test]
fn a_snapshot_of_lucent_names_its_instance() {
    let md = snap_markdown(&"Mix".to_string(), &vec![finding("440", "7.0", &[])], &vec![], &vec![], "48000", "50", 1);
    assert!(md.starts_with("---\nplugin: lucent\nname: Mix\ntype: snapshot\nsample_rate: 48000\n"));
    assert!(md.contains("# Lucent Snapshot — Mix\n"));
    assert!(md.contains("_No masking areas detected at current sensitivity._"));
    let alone = snap_markdown(&"Mix".to_string(), &vec![], &vec![], &vec![], "48000", "50", 0);
    assert!(alone.contains("_Standalone — no masking._"));
}

#[test]
fn modes_go_round() {
    assert_eq!((next_mode(1), next_mode(0), next_mode(2)), (0, 2, 1));
    assert_eq!((mode_label(0), mode_label(1), mode_label(2)), ("STANDALONE".to_string(), "HYBRID".to_string(), "RELAY".to_string()));
    assert_ne!(mode_name(0), mode_name(2));
}

#[test]
fn folders_are_trimmed() {
    assert_eq!(vault_path_of(&"  /a b ".to_string()), Some("/a b".to_string()));
    assert_eq!(vault_path_of(&" \t".to_string()), None);
    assert_eq!(path_or_empty(&None), "");
}

fn meters() -> Meters {
    Meters {
        output_peak: f(-6.0),
        peak_l: f(-6.0),
        peak_r: f(-7.0),
        holds: PeakHolds::new(f(-3.0)),
        phase_correlation: f(1.0),
        balance: f(0.0),
    }
}

fn input(feeds: Vec<(String, Vec<Level>)>) -> TickInput {
    TickInput {
        own_spectrum: vec![f(-20.0); 4],
        resonance: vec![(3, f(5.0))],
        masking: vec![f(-90.0); 4],
        feeds,
        meters: meters(),
    }
}

#[test]
fn the_lucent_editor_follows_its_messages() {
    let blend = |_p: Level, s: Level| s;
    let mut e = LucentEditor::boot(LucentParams { analyze_mode: 1, name: "Bus".to_string() }, Some("/v".to_string()));
    let r = e.update(Message::Tick, input(vec![("A".to_string(), vec![f(-30.0); 4])]), blend);
    assert!(!r.save_path && r.edits.is_empty());
    assert_eq!(e.ui_state.relays.len(), 1);
    let panel = e.render_main_panel();
    assert!(matches!(panel.relay_bar, RelayBar::Buttons(1)));
    e.update(Message::RelayToggled(0), input(vec![]), blend);
    assert!(!e.ui_state.relays[0].active);
    let before = e.params.analyze_mode;
    let r = e.update(Message::CycleMode, input(vec![]), blend);
    assert_ne!(e.params.analyze_mode, before);
    assert_eq!(
        r.edits,
        vec![
            Edit::Begin(LucentParam::AnalyzeMode),
            Edit::Change(
                LucentParam::AnalyzeMode,
                ParamValue::Choice(e.params.analyze_mode as i32),
            ),
            Edit::End(LucentParam::AnalyzeMode),
        ]
    );
    assert_eq!(e.params.analyze_mode, 0);
    assert!(matches!(e.render_main_panel().relay_bar, RelayBar::Hidden));
    e.update(Message::SnapPressed, input(vec![]), blend);
    assert!(e.requests.snap_active);
    e.update(Message::LucentNameChanged("Mix".to_string()), input(vec![]), blend);
    assert_eq!(e.params.name, "Mix");
    e.update(Message::SetupToggled, input(vec![]), blend);
    assert_eq!(e.vault_path_input, "/v");
    e.update(Message::VaultPathChanged(" /w ".to_string()), input(vec![]), blend);
    assert!(e.update(Message::SaveVaultPath, input(vec![]), blend).save_path);
    assert_eq!(e.vault_path, Some("/w".to_string()));
    assert!(!e.show_setup);
    let on = e.show_resonance;
    e.update(Message::ResonanceToggled, input(vec![]), blend);
    assert_ne!(e.show_resonance, on);
    assert!(resonance_line("440", "5.0").contains("440"));
    assert!(masking_line("440", "-5.0").contains("440"));
}
