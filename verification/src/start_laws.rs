//! What plugins, panels and editors start with, and what is left of Aether's presets and ticks.

use crate::aether_library::{
    append_entries, built_in, default_presets, entries, names_of, PresetEntry,
};
use crate::aether_panel::{
    entry_names, hold_ticked, key_of_params, AetherPanel, EqCurveKey, InputHold, ScanRequest,
    TickReply,
};
use crate::aether_params::AetherParams;
use crate::aether_preset::{
    build_profile, drafted, lemma_draft_shape, row_key, row_models, rows_in_range, AetherProfile,
    PresetKey, PresetRow,
};
use crate::aurum::Aurum;
use crate::aurum_panel::AurumPanel;
use crate::aurum_params::AurumParams;
use crate::equilibrium::{Equilibrium, PreMaster};
use crate::equilibrium_panel::EqPanel;
use crate::knob::KnobView;
use crate::level::Level;
use crate::lucent::Lucent;
use crate::lucent_block::ShownSpectra;
use crate::lucent_editor::{masking_line, resonance_line};
use crate::lucent_panel::TickAccum;
use crate::lucent_view::{write_named, write_own, LucentPanel, Words};
use crate::named_relays;
use crate::registry::NamedPeak;
use crate::relay::{LucentRelay, StateLoadError};
use crate::relay_editor::RelayPanel;
use crate::report::Finding;
use crate::scope::{FrameBuffer, Scope};
use crate::text::{first_digit, lower_text, lowered, occurs_at, starts_with, texts};
use crate::ticker::Ticker;
use vstd::prelude::*;
use vstd::string::*;

verus! {

/// A plugin of Lucent starts without a name and a slot, with its holds at -100 dB and nothing heard.
pub proof fn law_a_lucent_starts_at_rest(key: usize, r: Lucent, shown: ShownSpectra, j: int)
    requires
        call_ensures(Lucent::new, (key,), r),
        call_ensures(ShownSpectra::new, (), shown),
        0 <= j < 1024,
    ensures
        r.name@.len() == 0 && r.cached_name@.len() == 0,
        r.claimed_slot is None && r.shm_slot == -1,
        r.instance_key == key,
        r.snap.phase == 0 && !r.snap.active,
        r.holds.value.bits == 0xc2c8_0000 && r.holds.left.bits == 0xc2c8_0000 && r.holds.right.bits
            == 0xc2c8_0000,
        r.frame.write_pos == 0 && r.frame.input@.len() == 2048,
        r.peak_tracker.persistence@[j] == 0 && r.peak_tracker.resonance_score@[j].bits == 0,
        r.relay_peak_tracker.persistence@[j] == 0,
        r.masking_analyzer.masking_map@[j].bits == 0xc2b4_0000,
        shown.bins@[j].bits == 0xc2b4_0000 && shown.average@[j].bits == 0xc2b4_0000,
{
}

/// A name that was loaded is the one that the plugin shows.
pub proof fn law_a_loaded_name_is_taken_over(l: &mut Lucent, u: (), m: &mut LucentRelay)
    requires
        old(l).wf(),
        call_ensures(Lucent::state_changed, (l,), u),
        call_ensures(LucentRelay::state_changed, (m,), u),
    ensures
        final(l).cached_name@ == old(l).name@,
        final(m).cached_name@ == old(m).relay_handle.0.name@,
        final(m).cached_target@ == old(m).relay_handle.0.target@,
{
}

/// A relay starts without a name, a target and a slot, and with silent bins.
pub proof fn law_a_relay_starts_at_rest(r: LucentRelay, target: String, panel: RelayPanel, j: int)
    requires
        call_ensures(LucentRelay::new, (), r),
        call_ensures(RelayPanel::new, (target,), panel),
        0 <= j < 1024,
    ensures
        r.relay_handle.0.name@.len() == 0 && r.relay_handle.0.target@.len() == 0,
        r.claimed_slot is None && r.shm_slot == -1,
        r.frame.write_pos == 0 && r.frame.input@.len() == 2048,
        r.fft_bins@.len() == 1024 && r.fft_bins@[j].bits == 0xc2b4_0000,
        r.fallback_label@ == "Relay"@,
        panel.target == target && panel.selected_target@ == target@,
        panel.target_options@.len() == 1 && panel.target_options@[0]@ == "(broadcast)"@,
        panel.selected_index == 0,
        !panel.telemetry.connected && panel.telemetry.last_connected_ms is None,
{
    let o = texts(panel.target_options@);
    assert(o.len() == panel.target_options@.len());
    assert(o[0] == panel.target_options@[0]@);
}

/// The option shown is the chosen one, or the broadcast.
pub proof fn law_the_shown_option_is_the_chosen_one(p: &RelayPanel, r: String)
    requires
        call_ensures(RelayPanel::chosen_option, (p,), r),
    ensures
        p.selected_index < p.target_options@.len() ==> r@
            == p.target_options@[p.selected_index as int]@,
        p.selected_index >= p.target_options@.len() ==> r@ == "(broadcast)"@,
{
}

/// Equilibrium starts with its holds at -90 dB, nothing listened to, nothing measured and no capture
/// under way.
pub proof fn law_an_equilibrium_starts_at_rest(r: Equilibrium, p: PreMaster)
    requires
        call_ensures(Equilibrium::new, (), r),
        call_ensures(PreMaster::new, (), p),
    ensures
        r.holds.value.bits == 0xc2b4_0000 && r.holds.left.bits == 0xc2b4_0000 && r.holds.right.bits
            == 0xc2b4_0000,
        r.listen_sample_count == 0,
        !r.auto_loud.trigger && !r.auto_loud.measuring,
        r.snap.phase == 0 && !r.snap.active,
        r.pre_master == p,
        p.gain.bits == 0x3f80_0000,
        !p.active_prev,
        p.measure_peak.bits == 0 && p.measure_count == 0,
        (Level { bits: 0 }).above(r.cached_mono_floor_freq),
        (Level { bits: 0 }).above(r.cached_sample_rate),
{
}

/// Aurum starts with its parameters, its holds at -90 dB and its limiter open; it saves nothing
/// beside them and loads nothing.
pub proof fn law_an_aurum_starts_at_rest(
    params: AurumParams,
    r: Aurum,
    a: &mut Aurum,
    rate: Level,
    floor: bool,
    b: &Aurum,
    saved: Vec<u8>,
    c: &mut Aurum,
    bytes: &Vec<u8>,
    loaded: Result<(), StateLoadError>,
)
    requires
        call_ensures(Aurum::new, (params,), r),
        call_ensures(Aurum::reset, (a, rate), floor),
        call_ensures(Aurum::save_state, (b,), saved),
        call_ensures(Aurum::load_state, (c, bytes), loaded),
    ensures
        r.params == params,
        r.holds.value.bits == 0xc2b4_0000 && r.holds.left.bits == 0xc2b4_0000 && r.holds.right.bits
            == 0xc2b4_0000,
        r.limiter.gain.bits == 0x3f80_0000 && r.limiter.prev_l.bits == 0 && r.limiter.prev_r.bits == 0,
        final(a).sample_rate == rate,
        final(a).params == old(a).params && final(a).holds == old(a).holds,
        floor <==> old(a).params.mono_floor.above(Level { bits: 0x3f80_0000 }),
        saved@.len() == 0,
        loaded is Ok && *final(c) == *old(c),
{
}

/// The panel of Aurum starts at its first tab; the set-up opens, closes and saves the folder.
pub proof fn law_the_panel_of_aurum_starts_at_its_first_tab(
    path: Option<String>,
    r: AurumPanel,
    a: &mut AurumPanel,
    b: &mut AurumPanel,
    u: (),
)
    requires
        call_ensures(AurumPanel::new, (path,), r),
        call_ensures(AurumPanel::toggle_setup, (a,), u),
        call_ensures(AurumPanel::save_vault_path, (b,), u),
    ensures
        r.tab == 0 && r.snap == 0 && !r.show_setup,
        path is Some ==> r.vault_path is Some && r.vault_path->0@ == path->0@
            && r.vault_path_input@ == path->0@,
        path is None ==> r.vault_path is None && r.vault_path_input@.len() == 0,
        final(a).show_setup == !old(a).show_setup && final(a).tab == old(a).tab,
        !final(b).show_setup,
        final(b).vault_path is Some <==> crate::text::trimmed(old(b).vault_path_input@).len() > 0,
        final(b).vault_path is Some ==> final(b).vault_path->0@ == crate::text::trimmed(
            old(b).vault_path_input@,
        ),
{
}

/// The panels of Lucent and Equilibrium start with nothing shown.
pub proof fn law_panels_start_empty(
    path: Option<String>,
    now: u64,
    accum: TickAccum,
    lucent: LucentPanel,
    found: Vec<crate::equilibrium_editor::PresetEntry>,
    tolerances: crate::canvas::Five,
    eq: EqPanel,
    b: int,
)
    requires
        call_ensures(TickAccum::new, (path, now), accum),
        call_ensures(LucentPanel::new, (path, now), lucent),
        call_ensures(EqPanel::new, (path, found, tolerances), eq),
        0 <= b < 5,
    ensures
        accum.ui.relays@.len() == 0 && accum.window_start_ms == now && accum.vault_path == path,
        !accum.setup_visible && !accum.snap_request && accum.snap_blink == 0,
        accum.display.own.entries@.len() == 0 && accum.session.own.entries@.len() == 0,
        lucent.accum.window_start_ms == now && lucent.accum.vault_path == path,
        lucent.shown.relays@.len() == 0 && lucent.shown.resonance.own@.len() == 0,
        lucent.shown.resonance_text@ == "No resonances detected"@,
        lucent.shown.masking_text@ == "No masking detected"@,
        lucent.shown.show_resonance && lucent.shown.show_masking,
        lucent.shown.meters.peak_l.bits == 0xc2b4_0000 && lucent.shown.meters.hold.bits
            == 0xc2b4_0000 && lucent.shown.meters.correlation.bits == 0x3f80_0000
            && lucent.shown.meters.balance.bits == 0,
        eq.vault_path == path && !eq.show_setup && eq.name_input@.len() == 0,
        eq.presets@.len() == found@.len() + 1 && eq.presets@[0].name@ == "Pink Noise"@,
        eq.target.selected == Some(0usize),
        eq.target.levels@[b].bits == 0,
        eq.shown.spectrum.band_levels@[b].bits == 0xc2b4_0000,
        eq.shown.spectrum.listen_samples.bits == 0,
        eq.shown.meters.correlation.bits == 0x3f80_0000 && eq.shown.meters.peak_l.bits == 0xc2b4_0000,
        !eq.shown.measuring && !eq.shown.lamp.snap_active,
{
    assert(eq.presets@.skip(1).len() == found@.len());
}

/// A knob, a scope, a frame and a ticker start as they are told to, and empty.
pub proof fn law_parts_start_empty(
    value: Level,
    default: Level,
    min: Level,
    max: Level,
    bipolar: bool,
    k: KnobView,
    len: usize,
    s: Scope,
    f: FrameBuffer,
    now: u64,
    interval: u64,
    t: Ticker,
    i: int,
)
    requires
        len > 0,
        call_ensures(KnobView::new, (value, default, min, max, bipolar), k),
        call_ensures(Scope::new, (len,), s),
        call_ensures(FrameBuffer::new, (len,), f),
        call_ensures(Ticker::new, (now, interval), t),
        0 <= i < len,
    ensures
        k.value_norm == value && k.default_norm == default && k.min == min && k.max == max && k.bipolar
            == bipolar && !k.dragging && k.last_click is None && !k.hovered,
        s.samples@.len() == len && s.write_pos == 0 && s.samples@[i].0.bits == 0
            && s.samples@[i].1.bits == 0,
        f.input@.len() == len && f.write_pos == 0 && f.input@[i].bits == 0,
        t.last_ns == now && t.interval_ns == interval,
{
}

/// The relays for show are a kick, a bass and a synth, all switched on with the same pattern.
pub proof fn law_relays_for_show(
    own: Vec<Level>,
    pattern: &Vec<Level>,
    r: named_relays::LucentUiState,
    fresh: named_relays::LucentUiState,
    i: int,
)
    requires
        call_ensures(named_relays::LucentUiState::with_dummy_relays, (own, pattern), r),
        call_ensures(named_relays::LucentUiState::new, (), fresh),
        0 <= i < 3,
    ensures
        r.own_spectrum == own,
        r.relays@.len() == 3,
        r.relays@[0].name@ == "Kick"@ && r.relays@[1].name@ == "Bass"@ && r.relays@[2].name@
            == "Synth"@,
        r.relays@[i].active && r.relays@[i].spectrum@ == pattern@,
        r.name@ == "Lucent"@ && fresh.name@ == "Lucent"@,
        fresh.relays@.len() == 0 && fresh.own_spectrum@.len() == 0,
{
}

/// A line of a summary tells the frequency and then the strength.
pub proof fn law_lines_tell_frequency_and_strength(
    hz: &str,
    score: &str,
    a: String,
    b: String,
)
    requires
        call_ensures(resonance_line, (hz, score), a),
        call_ensures(masking_line, (hz, score), b),
    ensures
        a@ == hz@ + " Hz  "@ + score@,
        b@ == hz@ + " Hz  "@ + score@ + " dB"@,
{
}

/// Findings are written one by one: the bin as its frequency, the level as its strength, and the
/// names as they are.
pub proof fn law_findings_are_written_one_by_one<H: Fn(usize) -> String, L: Fn(Level) -> String>(
    words: &Words<H, L>,
    own: &Vec<(usize, Level)>,
    named: &Vec<NamedPeak>,
    a: Vec<Finding>,
    b: Vec<Finding>,
    i: int,
)
    requires
        call_ensures(write_own::<H, L>, (words, own), a),
        call_ensures(write_named::<H, L>, (words, named), b),
    ensures
        a@.len() == own@.len(),
        b@.len() == named@.len(),
        0 <= i < own@.len() ==> call_ensures(words.hz, (own@[i].0,), a@[i].hz) && call_ensures(
            words.level,
            (own@[i].1,),
            a@[i].level,
        ) && a@[i].names@.len() == 0,
        0 <= i < named@.len() ==> call_ensures(words.hz, (named@[i].0,), b@[i].hz) && call_ensures(
            words.level,
            (named@[i].1,),
            b@[i].level,
        ) && texts(b@[i].names@) == texts(named@[i].2@),
{
    if 0 <= i < own@.len() {
        assert(crate::lucent_view::written(*words, own@[i].0, own@[i].1, Seq::empty(), a@[i]));
        assert(texts(a@[i].names@).len() == a@[i].names@.len());
    }
    if 0 <= i < named@.len() {
        assert(crate::lucent_view::written(
            *words,
            named@[i].0,
            named@[i].1,
            texts(named@[i].2@),
            b@[i],
        ));
    }
}

/// A row of a preset sets what its name tells, in capitals or not: a band by its number and its
/// sort, or one of the other settings.
pub proof fn law_a_row_sets_what_its_name_tells(
    name: &Vec<char>,
    low: Vec<char>,
    r: Option<PresetKey>,
    at: int,
    d: nat,
)
    requires
        call_ensures(lower_text, (name,), low),
        call_ensures(row_key, (name,), r),
    ensures
        low@ == "crossfeed angle"@ ==> r == Some(PresetKey::CfAngle),
        low@ == "crossfeed amount"@ ==> r == Some(PresetKey::CfAmount),
        low@ == "crossfeed realism"@ ==> r == Some(PresetKey::CfRealism),
        low@ == "blend"@ ==> r == Some(PresetKey::Blend),
        low@ == "gain"@ ==> r == Some(PresetKey::Gain),
        starts_with(low@, "eq"@) && first_digit(low@) is None ==> r is None,
        starts_with(low@, "eq"@) && first_digit(low@) == Some(d) && 1 <= d <= 5 && occurs_at(
            low@,
            "type"@,
            at,
        ) ==> r == Some(PresetKey::BandType((d - 1) as usize)),
        starts_with(low@, "eq"@) && first_digit(low@) == Some(d) && 1 <= d <= 5 && occurs_at(
            low@,
            "freq"@,
            at,
        ) && !crate::text::contains(low@, "type"@) ==> r == Some(PresetKey::BandFreq((d - 1) as usize)),
        starts_with(low@, "eq"@) && first_digit(low@) == Some(d) && 1 <= d <= 5 && occurs_at(
            low@,
            "gain"@,
            at,
        ) && !crate::text::contains(low@, "type"@) && !crate::text::contains(low@, "freq"@) ==> r
            == Some(PresetKey::BandGain((d - 1) as usize)),
        starts_with(low@, "eq"@) && first_digit(low@) == Some(d) && 1 <= d <= 5
            && !crate::text::contains(low@, "type"@) && !crate::text::contains(low@, "freq"@)
            && !crate::text::contains(low@, "gain"@) ==> r == Some(
            PresetKey::BandQ((d - 1) as usize),
        ),
{
    reveal_strlit("eq");
    reveal_strlit("crossfeed angle");
    reveal_strlit("crossfeed amount");
    reveal_strlit("crossfeed realism");
    reveal_strlit("blend");
    reveal_strlit("gain");
    let s = lowered(name@);
    assert(low@ == s);
    if starts_with(s, "eq"@) {
        assert(s.take(2)[0] == s[0]);
        assert(s[0] == 'e');
    }
    let a = "crossfeed angle"@;
    let b = "crossfeed amount"@;
    let c = "crossfeed realism"@;
    assert(a.len() == 15 && b.len() == 16 && c.len() == 17);
}

/// One more row of a preset sets its own value: the other values stay.
pub proof fn law_one_more_row_sets_its_own_value(
    a: &Vec<PresetRow>,
    b: &Vec<PresetRow>,
    row: PresetRow,
    na: &Vec<Option<Level>>,
    nb: &Vec<Option<Level>>,
    v: Level,
    ra: Option<AetherProfile>,
    rb: Option<AetherProfile>,
    k: int,
)
    requires
        b@ == a@.push(row),
        nb@ == na@.push(Some(v)),
        a@.len() == na@.len(),
        rows_in_range(row_models(b@)),
        call_ensures(build_profile, (a, na), ra),
        call_ensures(build_profile, (b, nb), rb),
        ra is Some,
        0 <= k < 5,
    ensures
        rb is Some,
        rb->0.cf_angle == (if row.key == PresetKey::CfAngle {
            v
        } else {
            ra->0.cf_angle
        }),
        rb->0.cf_amount == (if row.key == PresetKey::CfAmount {
            v
        } else {
            ra->0.cf_amount
        }),
        rb->0.blend == (if row.key == PresetKey::Blend {
            v
        } else {
            ra->0.blend
        }),
        rb->0.gain == (if row.key == PresetKey::Gain {
            v
        } else {
            ra->0.gain
        }),
        rb->0.name@ == (if row.key == PresetKey::Title {
            row.text@
        } else {
            ra->0.name@
        }),
        rb->0.bands@[k].1 == (if row.key == PresetKey::BandFreq(k as usize) {
            v
        } else {
            ra->0.bands@[k].1
        }),
        rb->0.bands@[k].2 == (if row.key == PresetKey::BandGain(k as usize) {
            v
        } else {
            ra->0.bands@[k].2
        }),
        rb->0.bands@[k].3 == (if row.key == PresetKey::BandQ(k as usize) {
            v
        } else {
            ra->0.bands@[k].3
        }),
        row.key != PresetKey::BandType(k as usize) ==> rb->0.bands@[k].0 == ra->0.bands@[k].0,
        row.key != PresetKey::CfRealism ==> rb->0.cf_realism == ra->0.cf_realism,
{
    let ma = row_models(a@);
    let mb = row_models(b@);
    assert(mb =~= ma.push(row@));
    assert(mb.drop_last() =~= ma);
    assert(mb.last() == row@);
    lemma_drafted_agrees(ma, na@, nb@);
    lemma_draft_shape(ma, na@);
    lemma_draft_shape(mb, nb@);
    assert(rows_in_range(ma)) by {
        assert forall|i: int| 0 <= i < ma.len() implies crate::aether_preset::key_in_range(
            (#[trigger] ma[i]).0,
        ) by {
            assert(mb[i] == ma[i]);
        }
    }
    assert(crate::aether_preset::key_in_range(mb[mb.len() - 1].0));
    let da = drafted(ma, na@);
    let db = drafted(mb, nb@);
    assert(crate::aether_preset::complete(da));
    assert forall|i: int| 0 <= i < 5 implies #[trigger] db.has_freq[i] by {
        assert(da.has_freq[i]);
    }
    assert forall|i: int| 0 <= i < 5 implies #[trigger] db.has_gain[i] by {
        assert(da.has_gain[i]);
    }
    assert(crate::aether_preset::complete(db));
}

proof fn lemma_drafted_agrees(
    rows: Seq<(PresetKey, Seq<char>)>,
    a: Seq<Option<Level>>,
    b: Seq<Option<Level>>,
)
    requires
        rows.len() <= a.len(),
        rows.len() <= b.len(),
        forall|i: int| 0 <= i < rows.len() ==> a[i] == b[i],
    ensures
        drafted(rows, a) == drafted(rows, b),
    decreases rows.len(),
{
    if rows.len() > 0 {
        lemma_drafted_agrees(rows.drop_last(), a, b);
        assert(a[rows.len() - 1] == b[rows.len() - 1]);
    }
}

/// The built-in preset is alone without a folder; entries are appended in their order, and listed
/// under their names.
pub proof fn law_lists_of_presets_keep_their_order(
    defaults: Vec<PresetEntry>,
    list: &mut Vec<PresetEntry>,
    more: &Vec<PresetEntry>,
    u: (),
    names: Vec<String>,
    i: int,
)
    requires
        call_ensures(default_presets, (), defaults),
        call_ensures(append_entries, (list, more), u),
        call_ensures(entry_names, (more,), names),
        0 <= i < more@.len(),
    ensures
        defaults@.len() == 1 && defaults@[0].name@ == "Harman Flat"@ && defaults@[0].path is None,
        final(list)@.len() == old(list)@.len() + more@.len(),
        final(list)@[old(list)@.len() + i].name@ == more@[i].name@,
        final(list)@[old(list)@.len() + i].profile@ == more@[i].profile@,
        names@.len() == more@.len(),
        names@[i]@ == more@[i].name@,
{
    let d = entries(defaults@);
    assert(d.len() == defaults@.len());
    assert(d[0] == defaults@[0]@);
    let a = entries(final(list)@);
    assert(a.len() == final(list)@.len());
    assert(entries(old(list)@).len() == old(list)@.len());
    assert(entries(more@).len() == more@.len());
    let k = old(list)@.len() + i;
    assert(a[k as int] == entries(more@)[i]);
    assert(a[k as int] == final(list)@[k as int]@);
    assert(entries(more@)[i] == more@[i]@);
    assert(texts(names@).len() == names@.len());
    assert(texts(names@)[i] == names@[i]@);
    assert(names_of(entries(more@))[i] == more@[i].name@);
}

/// The panel of Aether starts with the built-in preset and asks for a scan where there is a folder.
pub proof fn law_the_panel_of_aether_starts_with_a_scan(
    path: Option<String>,
    last: Option<String>,
    r: (AetherPanel, Option<ScanRequest>),
    hold: InputHold,
)
    requires
        call_ensures(AetherPanel::new, (path, last), r),
        call_ensures(InputHold::new, (), hold),
    ensures
        r.0.hold == hold && hold.level.bits == 0xc2b4_0000 && hold.ticks == 0,
        r.0.preset_opts@.len() == 1 && r.0.preset_opts@[0]@ == "Harman Flat"@,
        r.0.cache@.len() == 0 && !r.0.show_setup && r.0.eq_curve_key is None,
        path is Some ==> r.1 is Some && r.1->0.folder@ == path->0@ && r.0.vault_path is Some
            && r.0.vault_path->0@ == path->0@,
        path is None ==> r.1 is None && r.0.vault_path is None,
        last is Some ==> r.0.preset_name@ == last->0@,
        last is None ==> r.0.preset_name@.len() == 0,
        r.0.telemetry.in_peak.bits == 0xc2b4_0000 && r.0.telemetry.in_peak_hold.bits == 0xc2b4_0000,
{
    let o = texts(r.0.preset_opts@);
    assert(o.len() == r.0.preset_opts@.len());
    assert(o == names_of(built_in()));
    assert(names_of(built_in())[0] == "Harman Flat"@);
    assert(o[0] == r.0.preset_opts@[0]@);
}

/// The set-up of Aether opens and closes; the closed list shows the name of the preset.
pub proof fn law_the_list_of_aether_shows_its_preset(
    p: &mut AetherPanel,
    u: (),
    q: &AetherPanel,
    r: String,
)
    requires
        call_ensures(AetherPanel::toggle_setup, (p,), u),
        call_ensures(AetherPanel::trigger_text, (q,), r),
    ensures
        final(p).show_setup == !old(p).show_setup && final(p).preset_name == old(p).preset_name,
        q.preset_name@.len() > 0 ==> r@ == q.preset_name@,
        q.preset_name@.len() == 0 ==> r@ == "Select preset"@,
{
}

/// A curve is computed anew where its key has changed, and kept else; the meter shows the peak and
/// what is held, and every difference is told.
pub proof fn law_a_curve_is_computed_where_its_key_changes<
    C: Fn(EqCurveKey) -> Vec<(Level, Level)>,
>(
    p: &mut AetherPanel,
    in_peak: Level,
    key: EqCurveKey,
    curve: C,
    changed: bool,
    same: bool,
)
    requires
        call_ensures(AetherPanel::refresh::<C>, (p, in_peak, key, curve), changed),
        old(p).eq_curve_key is Some ==> call_ensures(
            EqCurveKey::equals,
            (&old(p).eq_curve_key->0, &key),
            same,
        ),
    ensures
        !in_peak.same(old(p).telemetry.in_peak) ==> changed,
        !old(p).hold.level.same(old(p).telemetry.in_peak_hold) ==> changed,
        changed ==> final(p).telemetry.in_peak == in_peak && final(p).telemetry.in_peak_hold == old(p).hold.level,
        !changed ==> final(p).telemetry == old(p).telemetry,
        old(p).eq_curve_key is Some && same ==> final(p).telemetry.curve_points@ == old(p).telemetry.curve_points@ && final(p).eq_curve_key == old(p).eq_curve_key,
        old(p).eq_curve_key is None || !same ==> final(p).eq_curve_key == Some(key),
        (old(p).eq_curve_key is None || !same) && changed ==> exists|points: Vec<(Level, Level)>|
            #[trigger] call_ensures(curve, (key,), points) && final(p).telemetry.curve_points@
                == points@,
        (old(p).eq_curve_key is None || !same) && !changed ==> exists|points: Vec<(Level, Level)>|
            #[trigger] call_ensures(curve, (key,), points) && points@.len() == old(p).telemetry.curve_points@.len()
                && forall|i: int|
                0 <= i < points@.len() ==> (#[trigger] points@[i]).0.same(
                    old(p).telemetry.curve_points@[i].0,
                ) && points@[i].1.same(old(p).telemetry.curve_points@[i].1),
        final(p).telemetry.preset_names == old(p).telemetry.preset_names,
{
}

/// A tick of Aether's panel shows the peak that it reads and the peak that is held, and tells where
/// that is another than before; a higher peak is held for 90 ticks.
pub proof fn law_a_tick_of_aether_shows_its_peak<
    D: Fn(Level) -> Level,
    C: Fn(EqCurveKey) -> Vec<(Level, Level)>,
>(
    p: &mut AetherPanel,
    in_peak: Level,
    rate: Level,
    params: &AetherParams,
    decay: D,
    curve: C,
    r: TickReply,
)
    requires
        call_ensures(AetherPanel::tick::<D, C>, (p, in_peak, rate, params, decay, curve), r),
    ensures
        !in_peak.same(old(p).telemetry.in_peak) ==> r.changed && final(p).telemetry.in_peak == in_peak
            && final(p).telemetry.in_peak_hold == final(p).hold.level,
        in_peak.above(old(p).hold.level) ==> final(p).hold.level == in_peak && final(p).hold.ticks
            == 90,
        !in_peak.above(old(p).hold.level) && old(p).hold.ticks > 0 ==> final(p).hold.level == old(p).hold.level && final(p).hold.ticks == old(p).hold.ticks - 1,
        r.scan is Some ==> old(p).vault_path is Some && r.scan->0.folder@ == old(p).vault_path->0@,
        old(p).vault_path is Some && (old(p).last_vault_path is None || old(p).last_vault_path->0@ != old(p).vault_path->0@) ==> r.scan is Some,
        final(p).vault_path == old(p).vault_path,
        final(p).preset_name == old(p).preset_name,
{
    let before = *old(p);
    let key = key_of_params(*params, rate);
    let after = *final(p);
    let (hold, watched, taken, redrawn): (InputHold, AetherPanel, AetherPanel, bool) = choose|
        hold: InputHold,
        watched: AetherPanel,
        taken: AetherPanel,
        redrawn: bool,
    |
        {
            &&& hold_ticked(before.hold, in_peak, decay, hold)
            &&& #[trigger] AetherPanel::watched((AetherPanel { hold, ..before }), watched, r.scan)
            &&& #[trigger] AetherPanel::taken(watched, taken)
            &&& #[trigger] AetherPanel::renewed(taken, in_peak, key, curve, after, redrawn)
            &&& r.changed == (AetherPanel::renamed(before, watched) || AetherPanel::renamed(
                watched,
                taken,
            ) || redrawn)
        };
    assert(AetherPanel::watched((AetherPanel { hold, ..before }), watched, r.scan));
    assert(AetherPanel::taken(watched, taken));
    assert(AetherPanel::renewed(taken, in_peak, key, curve, after, redrawn));
}

} // verus!
