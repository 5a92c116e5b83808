use lx_audiolabs::aurum::Aurum;
use lx_audiolabs::aurum_params::AurumParams;
use lx_audiolabs::level::Level;
use lx_audiolabs::lucent::{Lucent, LucentState};
use lx_audiolabs::named_relays;
use lx_audiolabs::power_sum::power_sum_spectrum;
use lx_audiolabs::relay::{
    liveness_notice, make_slot_label, published_slot, resolve_live_target, right_channel, LucentRelay, RelayPersist,
    StateLoadError,
};
use lx_audiolabs::relay_editor;
use lx_audiolabs::relay_state::{LucentUiState, RelayData};
use lx_audiolabs::saved_state::{read_state, text_fits, write_state};
use lx_audiolabs::scope::pass_through;

fn f(x: f32) -> Level {
    Level::from_bits(x.to_bits())
}

fn x(l: Level) -> f32 {
    f32::from_bits(l.bits)
}

fn blend(p: Level, s: Level) -> Level {
    f(x(p) * (5.0 / 6.0) + x(s) * (1.0 / 6.0))
}

fn feed(slot: u8, name: &str, level: f32) -> (u8, String, Vec<Level>) {
    (slot, name.to_string(), vec![f(level); 4])
}

fn names(list: &[&str]) -> Vec<String> {
    list.iter().map(|s| s.to_string()).collect()
}

#[test]
fn sync_relays_preserves_active_toggle_by_slot() {
    let mut ui = LucentUiState::new();
    ui.sync_relays(vec![feed(0, "Kick", -40.0)], blend);
    ui.relays[0].active = false;

    ui.sync_relays(vec![feed(0, "Kick Renamed", -30.0)], blend);
    assert!(!ui.relays[0].active);
    assert_eq!(ui.relays[0].name, "Kick Renamed");
}

#[test]
fn relay_active_mask_reflects_toggles() {
    let mut ui = LucentUiState::new();
    ui.sync_relays(
        vec![(0, "A".to_string(), vec![]), (2, "B".to_string(), vec![])],
        blend,
    );
    ui.relays[0].active = false;
    assert_eq!(ui.relay_active_mask(), 1u32 << 2);
}

#[test]
fn lib_renders_pass_through() {
    let input = vec![vec![f(0.5); 2205], vec![f(0.5); 2205]];
    let output = pass_through(&input);
    assert_eq!(output.len(), 2);
    for channel in &output {
        assert_eq!(channel.len(), 2205);
        for s in channel {
            assert!(!s.is_nan());
            assert_eq!(*s, f(0.5));
        }
    }
}

#[test]
fn lib_state_round_trips() {
    let mut relay = LucentRelay::new();
    relay.relay_handle.0 = RelayPersist { name: "Bass".to_string(), target: "Master".to_string() };
    let saved = relay.save_state();
    let mut again = LucentRelay::new();
    assert!(again.load_state(&saved).is_ok());
    assert_eq!(again.relay_handle.name(), "Bass");
    assert_eq!(again.relay_handle.target(), "Master");

    let mut lucent = Lucent::new(1);
    let bus = LucentState { name: "Bus".to_string() };
    assert!(lucent.load_state(&bus.serialize()).is_ok());
    assert_eq!(lucent.name, "Bus");
    assert_eq!(lucent.save_state(), bus.serialize());

    let mut aurum = Aurum::new(AurumParams::new());
    let before = aurum;
    assert!(aurum.load_state(&before.save_state()).is_ok());
    assert_eq!(aurum, before);
}

#[test]
fn broken_states_are_refused() {
    let mut relay = LucentRelay::new();
    assert_eq!(relay.load_state(&[]), Err(StateLoadError::Malformed("RelayPersist")));
    let mut lucent = Lucent::new(1);
    assert_eq!(lucent.load_state(&[1, 0, 0]), Err(StateLoadError::Malformed("LucentState")));
}

#[test]
fn a_saved_name_is_counted_and_measured() {
    let bytes = LucentState { name: "Büs".to_string() }.serialize();
    let expected: Vec<u8> =
        vec![1, 0, 0, 0, 8, 0, 0, 0, 4, 0, 0, 0, b'B', 0xc3, 0xbc, b's'];
    assert_eq!(bytes, expected);
    assert_eq!(LucentState::deserialize(&bytes).unwrap().name, "Büs");
    assert!(text_fits(&"Büs".to_string()));
}

#[test]
fn what_is_no_text_is_left_empty() {
    let none = LucentState::deserialize(&[0, 0, 0, 0]).unwrap();
    assert_eq!(none.name, "");
    let cut = LucentState::deserialize(&[1, 0, 0, 0, 8, 0, 0, 0, 4, 0, 0, 0, b'B']).unwrap();
    assert_eq!(cut.name, "");
    let not_utf8 =
        LucentState::deserialize(&[1, 0, 0, 0, 5, 0, 0, 0, 1, 0, 0, 0, 0xff]).unwrap();
    assert_eq!(not_utf8.name, "");
    let endless = [1, 0, 0, 0, 255, 255, 255, 255, 255, 255, 255, 255, b'B'];
    assert_eq!(LucentState::deserialize(&endless).unwrap().name, "");
}

#[test]
fn states_of_other_versions_load() {
    let relay = RelayPersist { name: "Bass".to_string(), target: "Master".to_string() };
    assert_eq!(LucentState::deserialize(&relay.serialize()).unwrap().name, "Bass");
    let lucent = LucentState { name: "Bus".to_string() };
    let read = RelayPersist::deserialize(&lucent.serialize()).unwrap();
    assert_eq!((read.name.as_str(), read.target.as_str()), ("Bus", ""));
    let texts: Vec<String> = names(&["", "x", ""]);
    assert_eq!(read_state(&write_state(&texts), 3), Some(texts));
}

#[test]
fn known_relays_are_smoothed_and_new_ones_taken_as_they_are() {
    let mut ui = LucentUiState::new();
    ui.sync_relays(vec![feed(3, "Snare", -60.0)], blend);
    assert_eq!(ui.relays[0].spectrum, vec![f(-60.0); 4]);
    assert!(ui.relays[0].active);
    ui.sync_relays(vec![feed(3, "Snare", -30.0), feed(4, "Hat", -20.0)], blend);
    assert_eq!(ui.relays[0].spectrum, vec![blend(f(-60.0), f(-30.0)); 4]);
    assert_eq!(ui.relays[1].spectrum, vec![f(-20.0); 4]);
    assert_eq!(ui.find_slot(4), Some(1));
    assert_eq!(ui.find_slot(9), None);
    ui.clear_relays();
    assert!(ui.relays.is_empty());
}

#[test]
fn every_switched_on_slot_sets_its_bit() {
    let mut ui = LucentUiState::new();
    for slot in [0u8, 5, 31] {
        ui.relays.push(RelayData { slot, name: String::new(), spectrum: vec![], active: true });
    }
    assert_eq!(ui.relay_active_mask(), (1u32 << 31) | (1 << 5) | 1);
}

#[test]
fn named_relays_keep_their_switches() {
    let mut ui = named_relays::LucentUiState::new();
    ui.sync_relays(vec![("Kick".to_string(), vec![f(-40.0)]), ("Bass".to_string(), vec![f(-50.0)])], blend);
    ui.toggle_relay(0);
    assert!(!ui.relays[0].active);
    ui.sync_relays(vec![("Kick".to_string(), vec![f(-30.0)])], blend);
    assert_eq!(ui.relays.len(), 1);
    assert!(!ui.relays[0].active);
    ui.toggle_relay(0);
    assert!(ui.relays[0].active);
    ui.toggle_relay(7);
    assert_eq!(ui.active_relays().len(), 1);
}

#[test]
fn the_sum_of_named_relays_is_the_loudest_of_each_bin() {
    let mut ui = named_relays::LucentUiState::new();
    ui.own_spectrum = vec![f(-1.0), f(-2.0)];
    assert_eq!(ui.sum_active_spectra(), vec![f(-1.0), f(-2.0)]);
    ui.sync_relays(
        vec![
            ("A".to_string(), vec![f(-40.0), f(-20.0)]),
            ("B".to_string(), vec![f(-30.0), f(-50.0), f(-60.0)]),
        ],
        blend,
    );
    assert_eq!(ui.sum_active_spectra(), vec![f(-30.0), f(-20.0), f(-60.0)]);
    ui.toggle_relay(1);
    assert_eq!(ui.sum_active_spectra(), vec![f(-40.0), f(-20.0)]);
    ui.toggle_relay(0);
    assert_eq!(ui.sum_active_spectra(), vec![f(-1.0), f(-2.0)]);
}

#[test]
fn powers_add_up_bin_by_bin() {
    let power = |v: &Vec<Level>| f(v.iter().map(|l| 10f32.powf(x(*l) / 10.0)).sum());
    let to_db = |l: Level| f(10.0 * x(l).log10());
    let none = power_sum_spectrum(&vec![], power, to_db);
    assert_eq!(none, vec![f(-90.0); 1024]);
    let sum = power_sum_spectrum(&vec![vec![f(-20.0); 1024], vec![f(-20.0); 3]], power, to_db);
    assert!((x(sum[0]) - (-16.9897)).abs() < 0.001);
    assert!((x(sum[3]) - (-20.0)).abs() < 0.001);
    let faint = power_sum_spectrum(&vec![vec![f(-200.0); 1024]], power, to_db);
    assert_eq!(faint[5], f(-90.0));
}

#[test]
fn slots_have_labels() {
    assert_eq!(published_slot(None), -1);
    assert_eq!(published_slot(Some(7)), 7);
    assert_eq!(make_slot_label(0), "Relay 1");
    assert_eq!(make_slot_label(11), "Relay 12");
    assert_eq!(right_channel(1), 0);
    assert_eq!(right_channel(2), 1);
}

#[test]
fn a_single_lucent_is_the_target() {
    assert_eq!(resolve_live_target(&names(&["A"]), &String::new()), Some("A".to_string()));
    assert_eq!(resolve_live_target(&names(&["A", "B"]), &"B".to_string()), Some("B".to_string()));
    assert_eq!(resolve_live_target(&names(&["A", "B"]), &String::new()), None);
    assert_eq!(resolve_live_target(&names(&[]), &"B".to_string()), None);
}

#[test]
fn a_relay_announces_itself_on_its_slot() {
    let settings = RelayPersist { name: "Bass".to_string(), target: String::new() };
    assert!(liveness_notice(-1, &names(&["A"]), &settings).is_none());
    let notice = liveness_notice(3, &names(&["A"]), &settings).unwrap();
    assert_eq!((notice.slot, notice.label.as_str(), notice.target.as_str()), (3, "Bass", "A"));
}

#[test]
fn slots_are_claimed_and_released() {
    let mut relay = LucentRelay::new();
    relay.claim_slot(Some(4));
    assert_eq!(relay.claimed_slot, Some(4));
    assert_eq!(relay.shm_slot, 4);
    assert_eq!(relay.release(), Some(4));
    assert_eq!(relay.release(), None);
}

#[test]
fn the_relay_editor_shows_what_it_feeds() {
    let mut model = relay_editor::boot(relay_editor::LucentRelayParams {
        name: "Kick".to_string(),
        target: String::new(),
    });
    assert_eq!(relay_editor::status(&model).0, "No Lucent found");
    relay_editor::update(&mut model, relay_editor::Message::Tick, names(&["Bus"]));
    assert_eq!(relay_editor::status(&model).0, "→ Bus (auto)");
    relay_editor::update(&mut model, relay_editor::Message::Tick, names(&["Bus", "Mix"]));
    assert_eq!(relay_editor::status(&model).0, "Select a Lucent");
    assert_eq!(relay_editor::selected(&model), None);
    relay_editor::update(
        &mut model,
        relay_editor::Message::TargetSelected("Mix".to_string()),
        vec![],
    );
    assert_eq!(relay_editor::status(&model).0, "→ Mix");
    assert_eq!(relay_editor::selected(&model), Some("Mix".to_string()));
    assert_eq!(model.params.target, "Mix");
    relay_editor::update(
        &mut model,
        relay_editor::Message::NameChanged("Low".to_string()),
        vec![],
    );
    assert_eq!(model.params.name, "Low");
}

#[test]
fn the_relay_panel_follows_the_lucents() {
    let mut panel = relay_editor::RelayPanel::new(String::new());
    assert!(panel.tick(true, names(&["Bus"]), true, 10).retargeted);
    assert_eq!(panel.target, "Bus");
    assert!(panel.telemetry.connected);
    assert!(panel.tick(true, names(&["Mix", "Sub"]), false, 20).retargeted);
    assert_eq!(panel.target, "");
    assert!(!panel.tick(true, names(&["Mix", "Sub"]), false, 30).retargeted);
    panel.choose_option(2, &"Sub".to_string());
    assert_eq!(panel.target, "Sub");
    assert_eq!(panel.chosen_option(), "Sub");
}

#[test]
fn the_relay_panel_tells_what_changed() {
    let kept = relay_editor::RelayTick { retargeted: false, changed: true };
    let idle = relay_editor::RelayTick { retargeted: false, changed: false };
    let mut panel = relay_editor::RelayPanel::new(String::new());
    assert_eq!(panel.tick(false, vec![], false, 0), idle);
    assert_eq!(panel.tick(false, vec![], false, 5), kept);
    assert_eq!(panel.tick(true, names(&["Mix", "Sub"]), false, 5), kept);
    assert_eq!(panel.telemetry.last_connected_ms, Some(5));
    assert_eq!(panel.tick(true, names(&["Mix", "Sub"]), false, 5), idle);
    panel.target = "Sub".to_string();
    panel.selected_target = "Sub".to_string();
    assert_eq!(panel.tick(true, names(&["Mix", "Sub"]), true, 5), kept);
    assert_eq!(panel.selected_index, 2);
    assert_eq!(panel.tick(true, names(&["Mix", "Sub"]), false, 5), kept);
    let gone = panel.tick(true, names(&["Mix", "Low"]), false, 5);
    assert!(gone.retargeted && gone.changed);
    assert_eq!(panel.selected_index, 0);
}
