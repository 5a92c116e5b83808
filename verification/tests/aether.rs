use lx_audiolabs::aether_editor::{eq_field_id, AetherEditor, AetherMsg, Readers};
use lx_audiolabs::aether_library::{
    default_presets, find_profile, harman_flat_profile, is_built_in, resolve_last_preset, scan_aether_presets,
    start_needs_scan, PendingPresets, PresetEntry, PresetFile,
};
use lx_audiolabs::aether_panel::{input_readout, AetherPanel, InputHold};
use lx_audiolabs::aether_params::{
    apply_profile, edit_field, next_choice, profile_from_params, reset_all, AetherParam, AetherParams,
};
use lx_audiolabs::aether_preset::{
    band_type_code, build_profile_md, parse_aether_preset, preset_rows, realism_label_code, AetherProfile, BandTexts,
    PresetKey, ProfileTexts,
};
use lx_audiolabs::host::{Edit, ParamValue};
use lx_audiolabs::knob::Gesture;
use lx_audiolabs::level::Level;

fn f(x: f32) -> Level {
    Level::from_bits(x.to_bits())
}

fn x(l: Level) -> f32 {
    f32::from_bits(l.bits)
}

fn number(t: &String) -> Option<Level> {
    t.parse::<f32>().ok().map(f)
}

fn decay(l: Level) -> Level {
    f(x(l) - 0.5)
}

fn join(folder: &String, file: &String) -> String {
    format!("{folder}/{file}")
}

fn texts() -> ProfileTexts {
    let band = |kind: &str, freq: &str, gain: &str, q: &str| BandTexts {
        kind: kind.to_string(),
        freq: freq.to_string(),
        gain: gain.to_string(),
        q: q.to_string(),
    };
    ProfileTexts {
        bands: vec![
            band("LSC", "105", "6.5", "0.70"),
            band("PK", "300", "-1.5", "1.00"),
            band("PK", "1200", "2.0", "1.40"),
            band("PK", "4000", "-3.0", "2.00"),
            band("HSC", "10000", "1.0", "0.70"),
        ],
        cf_angle: "45".to_string(),
        cf_amount: "30".to_string(),
        cf_realism: "LIFELIKE".to_string(),
        blend: "80".to_string(),
        gain: "-2.5".to_string(),
    }
}

fn parse(content: &str) -> Option<AetherProfile> {
    parse_aether_preset(&Some("aether".to_string()), content, number)
}

fn entry(name: &str, gain: f32, path: Option<&str>) -> PresetEntry {
    let mut profile = harman_flat_profile();
    profile.name = name.to_string();
    profile.gain = f(gain);
    PresetEntry { name: name.to_string(), path: path.map(|p| p.to_string()), profile }
}

fn params() -> AetherParams {
    let flat = harman_flat_profile();
    AetherParams {
        bands: flat.bands,
        cf_angle: flat.cf_angle,
        cf_amount: flat.cf_amount,
        cf_realism: 2,
        blend: flat.blend,
        gain: f(3.0),
        bypass: false,
    }
}

#[test]
fn a_saved_profile_reads_back() {
    for full in [false, true] {
        let p = parse(&build_profile_md(&texts(), full)).unwrap();
        assert_eq!(p.name, "");
        assert_eq!(p.bands[0], (1, f(105.0), f(6.5), f(0.7)));
        assert_eq!(p.bands[2], (2, f(1200.0), f(2.0), f(1.4)));
        assert_eq!(p.bands[4], (3, f(10000.0), f(1.0), f(0.7)));
        assert_eq!(p.cf_angle, f(45.0));
        assert_eq!(p.cf_amount, f(30.0));
        assert_eq!(p.cf_realism, 1);
        assert_eq!(p.blend, f(80.0));
        assert_eq!(p.gain, f(-2.5));
    }
}

#[test]
fn a_profile_document_looks_like_this() {
    let md = build_profile_md(&texts(), false);
    assert!(md.starts_with(
        "---\nplugin: aether\ntype: preset\n---\n\n> Warning: Do NOT modify column names or table structure.\n\n## Parameter\n\n| Parameter | Wert | Einheit |\n|---|---|---|\n| EQ1 Type | LSC | |\n| EQ1 Freq | 105 | Hz |\n"
    ));
    assert!(md.ends_with("| Blend | 80 | % |\n| Gain | -2.5 | dB |\n"));
    assert!(md.contains("| Crossfeed Angle | 45 | ° |\n"));
    assert!(build_profile_md(&texts(), true).contains("Only the NUMBERS may be changed."));
}

#[test]
fn other_plugins_and_unfinished_documents_hold_no_profile() {
    let md = build_profile_md(&texts(), false);
    assert!(parse_aether_preset(&Some("meridian".to_string()), &md, number).is_none());
    assert!(parse_aether_preset(&None, &md, number).is_none());
    assert!(parse(&md.replace("| EQ3 Gain | 2.0 | dB |\n", "")).is_none());
    assert!(parse(&md.replace("| EQ3 Freq | 1200 |", "| EQ3 Freq | low |")).is_none());
    assert!(parse(&md.replace("| EQ3 Q | 1.40 | |\n", "")).is_some());
}

#[test]
fn rows_are_read_without_regard_to_case_and_order() {
    let rows = preset_rows("# My Phones\n| eq5 GAIN | 1.5 | dB |\n| BLEND | 40 | % |\nfree text\n| EQ9 Freq | 7 | Hz |");
    let read: Vec<(PresetKey, &str)> = rows.iter().map(|r| (r.key, r.text.as_str())).collect();
    assert_eq!(
        read,
        vec![
            (PresetKey::Title, "My Phones"),
            (PresetKey::BandGain(4), "1.5"),
            (PresetKey::Blend, "40"),
            (PresetKey::BandFreq(4), "7"),
        ]
    );
}

#[test]
fn labels_have_codes() {
    assert_eq!(band_type_code(&"LS".to_string()), 1);
    assert_eq!(band_type_code(&"PEQ".to_string()), 2);
    assert_eq!(band_type_code(&"HS".to_string()), 3);
    assert_eq!(band_type_code(&"OFF".to_string()), 0);
    assert_eq!(realism_label_code(&"HYPERREALISTIC".to_string()), 2);
    assert_eq!(realism_label_code(&"DRY".to_string()), 0);
}

#[test]
fn fields_have_ids() {
    assert_eq!(eq_field_id(4, 2), "aether-eq-4-2");
    assert_eq!(eq_field_id(0, 10), "aether-eq-0-10");
}

#[test]
fn the_built_in_preset_wins() {
    let scanned = vec![entry("Harman Flat", 9.0, Some("a.md")), entry("Mine", 1.0, Some("b.md")), entry("Mine", 2.0, Some("c.md"))];
    assert_eq!(find_profile(&"Harman Flat".to_string(), &scanned).unwrap().gain, f(0.0));
    assert_eq!(find_profile(&"Mine".to_string(), &scanned).unwrap().gain, f(1.0));
    assert!(find_profile(&"Other".to_string(), &scanned).is_none());
    assert_eq!(default_presets().len(), 1);
    assert_eq!(default_presets()[0].profile.bands[0], (1, f(105.0), f(0.0), f(0.7)));
}

#[test]
fn the_kept_copy_starts_where_it_has_the_name() {
    let scanned = vec![entry("Mine", 1.0, Some("b.md"))];
    let kept = |name: &str| Some(entry(name, 7.0, None).profile);
    let mine = Some("Mine".to_string());
    assert_eq!(resolve_last_preset(&mine, kept("Mine"), &scanned).unwrap().gain, f(7.0));
    assert_eq!(resolve_last_preset(&mine, kept("Else"), &scanned).unwrap().gain, f(1.0));
    assert_eq!(resolve_last_preset(&mine, None, &vec![]).map(|p| p.name), None);
    assert!(resolve_last_preset(&None, kept("Mine"), &scanned).is_none());
}

#[test]
fn a_folder_lists_its_presets() {
    let md = build_profile_md(&texts(), false);
    let file = |path: &str, stem: Option<&str>, ext: &str, content: Option<String>| PresetFile {
        path: path.to_string(),
        stem: stem.map(|s| s.to_string()),
        extension: Some(ext.to_string()),
        plugin: Some("aether".to_string()),
        content,
    };
    let files = vec![
        file("a.md", Some("a"), "md", Some(md.clone())),
        file("b.txt", Some("b"), "txt", Some(md.clone())),
        file("c.md", Some("c"), "md", None),
        file("d.md", None, "md", Some(md.clone())),
        file("e.md", Some("e"), "md", Some(format!("# Titled\n{md}"))),
    ];
    let list = scan_aether_presets(&files, number);
    let names: Vec<&str> = list.iter().map(|e| e.name.as_str()).collect();
    assert_eq!(names, vec!["a", "Unnamed", "Titled"]);
    assert_eq!(list[0].profile.name, "a");
    assert_eq!(list[2].path, Some("e.md".to_string()));
}

#[test]
fn stale_scans_are_ignored() {
    let mut pending = PendingPresets::new();
    let next = pending.bump_generation();
    assert_eq!(next, 2);
    pending.deliver(1, vec![entry("Old", 0.0, Some("o.md"))]);
    assert!(pending.drain().is_none());
    pending.deliver(2, vec![entry("New", 0.0, Some("n.md"))]);
    assert_eq!(pending.drain().unwrap()[0].name, "New");
    assert!(pending.drain().is_none());
    pending.generation = u32::MAX;
    assert_eq!(pending.bump_generation(), 0);
}

#[test]
fn the_input_peak_is_held_for_ninety_ticks() {
    let mut hold = InputHold::new();
    hold.tick(f(-10.0), decay);
    assert_eq!((hold.level, hold.ticks), (f(-10.0), 90));
    for _ in 0..90 {
        hold.tick(f(-40.0), decay);
    }
    assert_eq!((hold.level, hold.ticks), (f(-10.0), 0));
    hold.tick(f(-40.0), decay);
    assert_eq!(hold.level, f(-10.5));
    hold.tick(f(-10.75), decay);
    assert_eq!(hold.level, f(-10.75));
    assert_eq!(input_readout(f(-90.0), "-90.0", ""), "--");
    assert_eq!(input_readout(f(-3.0), "-3.0", "pk "), "pk -3.0 dB");
}

#[test]
fn the_panel_follows_the_folder() {
    let (mut panel, scan) = AetherPanel::new(Some("/vault".to_string()), Some("Mine".to_string()));
    let scan = scan.unwrap();
    assert_eq!((scan.folder.as_str(), scan.generation), ("/vault", 1));
    let curve = |_k| vec![(f(0.0), f(1.0))];
    let first = panel.tick(f(-12.0), f(48000.0), &params(), decay, curve);
    assert!(first.changed && first.scan.is_none());
    assert_eq!(panel.telemetry.curve_points, vec![(f(0.0), f(1.0))]);
    let second = panel.tick(f(-12.0), f(48000.0), &params(), decay, curve);
    assert!(!second.changed);
    panel.pending.deliver(1, vec![entry("Mine", 4.0, Some("m.md"))]);
    assert!(panel.tick(f(-12.0), f(48000.0), &params(), decay, curve).changed);
    assert_eq!(panel.preset_opts, vec!["Harman Flat".to_string(), "Mine".to_string()]);
    assert_eq!(panel.pick(&"Mine".to_string(), &vec![]).unwrap().gain, f(4.0));

    panel.vault_path_input = "  ".to_string();
    panel.save_vault_path();
    assert_eq!(panel.vault_path, None);
    panel.pending.deliver(1, vec![entry("Late", 4.0, Some("l.md"))]);
    let gone = panel.tick(f(-12.0), f(48000.0), &params(), decay, curve);
    assert!(gone.changed && gone.scan.is_none());
    assert_eq!(panel.preset_opts, vec!["Harman Flat".to_string()]);
    assert!(panel.cache.is_empty());

    panel.vault_path_input = " /other ".to_string();
    panel.save_vault_path();
    let asked = panel.tick(f(-12.0), f(48000.0), &params(), decay, curve).scan.unwrap();
    assert_eq!((asked.folder.as_str(), asked.generation), ("/other", 3));
}

#[test]
fn other_names_in_the_list_are_a_change() {
    let (mut panel, _) = AetherPanel::new(Some("/vault".to_string()), None);
    let curve = |_k| vec![(f(0.0), f(1.0))];
    let changed = |panel: &mut AetherPanel| panel.tick(f(-12.0), f(48000.0), &params(), decay, curve).changed;
    changed(&mut panel);
    assert!(!changed(&mut panel));
    panel.pending.deliver(1, vec![entry("Mine", 4.0, Some("m.md"))]);
    assert!(changed(&mut panel));
    assert!(!changed(&mut panel));
    panel.pending.deliver(1, vec![entry("Mine", 5.0, Some("n.md"))]);
    assert!(!changed(&mut panel));
    assert_eq!(panel.cache[0].profile.gain, f(5.0));
    panel.vault_path = None;
    assert!(changed(&mut panel));
    assert_eq!(panel.telemetry.preset_names, vec!["Harman Flat".to_string()]);
    panel.vault_path = Some("/other".to_string());
    assert!(!changed(&mut panel));
    panel.vault_path = None;
    assert!(!changed(&mut panel));
    panel.pending.deliver(3, vec![]);
    assert!(!changed(&mut panel));
}

#[test]
fn watch_and_scan_tell_of_other_names() {
    let (mut panel, _) = AetherPanel::new(Some("/vault".to_string()), None);
    assert!(!panel.apply_scanned_presets());
    panel.pending.deliver(1, vec![entry("Mine", 4.0, Some("m.md"))]);
    assert!(panel.apply_scanned_presets());
    panel.vault_path = None;
    let watch = panel.watch_vault();
    assert!(watch.changed && watch.scan.is_none());
    panel.vault_path = Some("/other".to_string());
    let watch = panel.watch_vault();
    assert!(!watch.changed);
    assert_eq!(watch.scan.unwrap().folder, "/other");
}

#[test]
fn the_folder_is_asked_only_for_unknown_presets() {
    let kept = |name: &str| Some(entry(name, 7.0, None).profile);
    let last = |name: &str| Some(name.to_string());
    assert!(!start_needs_scan(&None, &kept("Mine")));
    assert!(!start_needs_scan(&last("Mine"), &kept("Mine")));
    assert!(!start_needs_scan(&last("Harman Flat"), &kept("Mine")));
    assert!(start_needs_scan(&last("Other"), &kept("Mine")));
    assert!(start_needs_scan(&last("Other"), &None));
    assert!(is_built_in(&"Harman Flat".to_string()));
    assert!(!is_built_in(&"Mine".to_string()));

    let (mut panel, _) = AetherPanel::new(Some("/vault".to_string()), None);
    assert!(!panel.pick_needs_scan(&"Harman Flat".to_string()));
    assert!(panel.pick_needs_scan(&"Mine".to_string()));
    panel.pending.deliver(1, vec![entry("Mine", 4.0, Some("m.md"))]);
    panel.apply_scanned_presets();
    assert!(!panel.pick_needs_scan(&"Mine".to_string()));
    assert_eq!(panel.pick(&"Mine".to_string(), &vec![]).unwrap().gain, f(4.0));
}

#[test]
fn a_saved_preset_can_be_picked_at_once() {
    let (mut panel, _) = AetherPanel::new(None, None);
    assert!(panel.save_target().is_none());
    assert_eq!(panel.trigger_text(), "Select preset");
    panel.preset_name = "Studio".to_string();
    let target = panel.save_target().unwrap();
    assert_eq!((target.folder, target.file.as_str()), (None, "Studio.md"));
    assert!(panel.saved("/p/Studio.md".to_string(), &params()).is_none());
    assert_eq!(panel.preset_opts, vec!["Harman Flat".to_string(), "Studio".to_string()]);
    assert_eq!(panel.pick(&"Studio".to_string(), &vec![]).unwrap().gain, f(3.0));
    let mut louder = params();
    louder.gain = f(5.0);
    panel.saved("/p/Studio.md".to_string(), &louder);
    assert_eq!(panel.cache.len(), 1);
    assert_eq!(panel.preset_opts.len(), 2);
    assert_eq!(panel.pick(&"Studio".to_string(), &vec![]).unwrap().gain, f(5.0));
    assert_eq!(panel.trigger_text(), "Studio");
}

#[test]
fn a_reset_sets_what_the_built_in_preset_sets() {
    let reset = reset_all(false);
    assert_eq!(reset, apply_profile(&harman_flat_profile()));
    assert_eq!(reset.len(), 25);
    let with_bypass = reset_all(true);
    assert_eq!(with_bypass.len(), 26);
    assert_eq!(with_bypass[25], (AetherParam::Bypass, ParamValue::Switch(false)));
}

#[test]
fn numbers_in_fields_stay_in_range() {
    assert_eq!(edit_field(1, 0, f(5.0)), (AetherParam::BandFreq(1), ParamValue::Number(f(20.0))));
    assert_eq!(edit_field(1, 1, f(-40.0)), (AetherParam::BandGain(1), ParamValue::Number(f(-12.0))));
    assert_eq!(edit_field(1, 2, f(9.0)), (AetherParam::BandQ(1), ParamValue::Number(f(8.0))));
    assert_eq!(edit_field(1, 2, f(0.1)), (AetherParam::BandQ(1), ParamValue::Number(f(0.3))));
}

#[test]
fn choices_go_round() {
    assert_eq!((0..4).map(|n| next_choice(n, 4)).collect::<Vec<_>>(), vec![1, 2, 3, 0]);
    assert_eq!(next_choice(2, 3), 0);
    assert_eq!(next_choice(-5, 4), (-5 + 1) % 4);
    assert_eq!(next_choice(-4, 4), (-4 + 1) % 4);
}

#[test]
fn parameters_make_a_profile() {
    let p = profile_from_params(&params(), &"Now".to_string());
    assert_eq!((p.name.as_str(), p.cf_realism, p.gain), ("Now", 2, f(3.0)));
}

#[test]
fn the_editor_turns_messages_into_changes() {
    let scanned = vec![entry("Mine", 1.0, Some("m.md"))];
    let mut e = AetherEditor::new(params(), Some("/vault".to_string()), Some("Mine".to_string()), &scanned, vec![String::new(); 15]);
    assert_eq!(e.selected_preset_index, Some(1));
    assert_eq!(e.selected_name(), Some("Mine".to_string()));
    let read = Readers { decay, number, join };

    let r = e.update(AetherMsg::EqTextChanged(2, 1, " 3.5 ".to_string()), f(-90.0), &read);
    assert_eq!(e.eq_text[7], " 3.5 ");
    let p = AetherParam::BandGain(2);
    assert_eq!(r.edits, vec![Edit::Begin(p), Edit::Change(p, ParamValue::Number(f(3.5))), Edit::End(p)]);
    assert!(e.update(AetherMsg::EqTextChanged(2, 1, "abc".to_string()), f(-90.0), &read).edits.is_empty());

    let r = e.update(AetherMsg::EqTypeCycled(4), f(-90.0), &read);
    assert_eq!(r.edits[1], Edit::Change(AetherParam::BandType(4), ParamValue::Choice(0)));
    let r = e.update(AetherMsg::RealismCycled, f(-90.0), &read);
    assert_eq!(r.edits[1], Edit::Change(AetherParam::CfRealism, ParamValue::Choice(0)));
    let r = e.update(AetherMsg::CfAngleGesture(Gesture::Change(f(99.0))), f(-90.0), &read);
    assert_eq!(r.edits, vec![Edit::Change(AetherParam::CfAngle, ParamValue::Number(f(75.0)))]);
    let r = e.update(AetherMsg::BlendGesture(Gesture::Start), f(-90.0), &read);
    assert_eq!(r.edits, vec![Edit::Begin(AetherParam::Blend)]);
    let r = e.update(AetherMsg::BypassToggled, f(-90.0), &read);
    assert_eq!(r.edits[1], Edit::Change(AetherParam::Bypass, ParamValue::Switch(true)));

    let r = e.update(AetherMsg::SelectPreset(1), f(-90.0), &read);
    assert_eq!(r.edits.len(), 75);
    assert!(r.refill);
    assert_eq!(r.config.unwrap().last_preset, Some("Mine".to_string()));
    assert!(e.update(AetherMsg::SelectPreset(9), f(-90.0), &read).edits.is_empty());

    e.update(AetherMsg::PresetNameChanged("Fresh".to_string()), f(-90.0), &read);
    let r = e.update(AetherMsg::SavePreset, f(-90.0), &read);
    let file = r.file.unwrap();
    assert_eq!((file.folder.as_str(), file.file.as_str()), ("/vault", "Fresh.md"));
    assert_eq!(e.presets[2].path, Some("/vault/Fresh.md".to_string()));
    assert_eq!(e.selected_preset_index, Some(2));

    e.update(AetherMsg::SetupToggled, f(-90.0), &read);
    assert!(e.show_setup);
    assert_eq!(e.vault_path_input, "/vault");
    e.update(AetherMsg::VaultPathChanged("   ".to_string()), f(-90.0), &read);
    let r = e.update(AetherMsg::SaveVaultPath, f(-90.0), &read);
    assert_eq!(e.vault_path, None);
    assert!(r.scan.is_none() && !e.show_setup);
    assert_eq!(e.preset_names(), vec!["Harman Flat".to_string()]);
    e.update(AetherMsg::SavePreset, f(-90.0), &read);
    assert!(e.show_setup);
}

#[test]
fn the_editor_looks_at_the_folder_every_150_ticks() {
    let mut e = AetherEditor::new(params(), Some("/vault".to_string()), None, &vec![], vec![String::new(); 15]);
    let read = Readers { decay, number, join };
    for _ in 0..149 {
        assert!(e.update(AetherMsg::Tick, f(-20.0), &read).scan.is_none());
    }
    assert_eq!(e.update(AetherMsg::Tick, f(-20.0), &read).scan, Some("/vault".to_string()));
    assert_eq!(e.preset_refresh_counter, 0);
    assert_eq!(e.in_peak, f(-20.0));
    e.refresh(&vec![entry("A", 1.0, Some("a.md"))]);
    e.refresh(&vec![entry("B", 1.0, Some("b.md"))]);
    assert_eq!(e.preset_names(), vec!["Harman Flat".to_string(), "B".to_string()]);
    assert_eq!(e.place_for(&"B".to_string()), 1);
    assert_eq!(e.place_for(&"Z".to_string()), 0);
    assert_eq!(e.input_reader("-20.0", "-20.0"), ("-20.0 dB".to_string(), "pk -20.0 dB".to_string()));
}
