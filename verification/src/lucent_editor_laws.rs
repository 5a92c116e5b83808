//! What holds of the editors of Lucent: of their messages, their ticks and what they draw.

use crate::host::{Edit, ParamValue};
use crate::level::Level;
use crate::lucent_change::shown_equal;
use crate::lucent_editor::{
    Effects, LucentEditor, LucentParam, LucentParams, MainPanel, Message, RelayBar, TickInput,
};
use crate::lucent_panel::{
    named_after, numbers, on_relays, scores_after, shows_masking, RankedFindings, TickAccum,
};
use crate::lucent_view::{
    all_written, named_written, same_relay, shows, switches, LucentPanel, PanelView, Telemetry,
    TickFeed, TickOutcome, Words,
};
use crate::lucent_change::equal_shown;
use crate::max_hold::{
    named_ranked, distinct, law_score_holds_never_fall, lemma_place, named_bins, named_held, place,
    score_bins, score_held, NamedModel,
};
use crate::named_relays::switched_on;
use crate::report::{masking_panel, resonance_panel, Finding};
use crate::registry::{named_peaks, NamedPeak, ResonanceLists};
use crate::relay_state::{bit, RelayData};
use crate::resonance::levels_of;
use crate::text::texts;
use vstd::prelude::*;
use vstd::string::*;

verus! {

/// Every message changes its own part of the editor: the mode goes round, the name is taken over
/// for the plugin and the view, the switches turn over, a snapshot is asked for and pulses for 72
/// ticks, and a reset starts the holds at -100 dB.
pub proof fn law_every_message_of_lucent_does_its_own<B: Fn(Level, Level) -> Level>(
    e: &mut LucentEditor,
    message: Message,
    input: TickInput,
    blend: B,
    r: Effects,
)
    requires
        call_ensures(LucentEditor::update::<B>, (e, message, input, blend), r),
    ensures
        message is CycleMode ==> final(e).params.analyze_mode == (if old(e).params.analyze_mode
            == 0 {
            2i64
        } else if old(e).params.analyze_mode == 1 {
            0i64
        } else {
            1i64
        }),
        !(message is CycleMode) ==> final(e).params.analyze_mode == old(e).params.analyze_mode
            && r.edits@.len() == 0,
        message is CycleMode ==> r.edits@.len() == 3 && r.edits@[0] == Edit::<LucentParam>::Begin(
            LucentParam::AnalyzeMode,
        ) && r.edits@[1] == Edit::Change(
            LucentParam::AnalyzeMode,
            ParamValue::Choice(final(e).params.analyze_mode as i32),
        ) && r.edits@[2] == Edit::<LucentParam>::End(LucentParam::AnalyzeMode),
        message is LucentNameChanged ==> final(e).params.name@ == message->LucentNameChanged_0@
            && final(e).ui_state.name == message->LucentNameChanged_0,
        !(message is LucentNameChanged) ==> final(e).params.name == old(e).params.name && final(e).ui_state.name == old(e).ui_state.name,
        message is ResonanceToggled <==> final(e).show_resonance != old(e).show_resonance,
        message is MaskingToggled <==> final(e).show_masking != old(e).show_masking,
        message is SetupToggled ==> final(e).show_setup == !old(e).show_setup,
        message is SaveVaultPath ==> !final(e).show_setup,
        !(message is SetupToggled) && !(message is SaveVaultPath) ==> final(e).show_setup == old(e).show_setup,
        r.save_path <==> message is SaveVaultPath,
        message is VaultPathChanged ==> final(e).vault_path_input == message->VaultPathChanged_0,
        !(message is SaveVaultPath) ==> final(e).vault_path == old(e).vault_path,
        message is SnapPressed ==> final(e).requests.snap_active && final(e).snap_blink == 72,
        !(message is SnapPressed) ==> final(e).requests.snap_active == old(e).requests.snap_active,
        message is ResetPeak || message is ResetAll ==> final(e).requests.reset_peak && final(e).requests.holds.value.bits == 0xc2c8_0000 && final(e).requests.holds.left.bits
            == 0xc2c8_0000 && final(e).requests.holds.right.bits == 0xc2c8_0000,
        !(message is ResetPeak) && !(message is ResetAll) ==> final(e).requests.reset_peak == old(e).requests.reset_peak && final(e).requests.holds == old(e).requests.holds,
        message is Tick && old(e).snap_blink > 0 ==> final(e).snap_blink == old(e).snap_blink - 1,
        message is Tick && old(e).snap_blink == 0 ==> final(e).snap_blink == 0,
        message is Tick ==> final(e).ui_state.own_spectrum == input.own_spectrum && final(e).resonance_cache == input.resonance && final(e).masking_cache == input.masking && final(e).meters == input.meters,
        message is Tick && old(e).params.analyze_mode == 0 ==> final(e).ui_state.relays@.len() == 0,
        message is Tick && old(e).params.analyze_mode != 0 ==> final(e).ui_state.relays@.len()
            == input.feeds@.len(),
        !(message is Tick) ==> final(e).meters == old(e).meters && final(e).ui_state.own_spectrum
            == old(e).ui_state.own_spectrum && final(e).resonance_cache == old(e).resonance_cache
            && final(e).masking_cache == old(e).masking_cache,
{
    if message is CycleMode {
        assert(r.edits@ == crate::lucent_editor::asked_edits(*old(e), message));
    }
}

/// The set-up shows the folder that is set when it opens; what is saved is the text of the field
/// without the white space around it.
pub proof fn law_the_folder_of_lucent_is_edited<B: Fn(Level, Level) -> Level>(
    e: &mut LucentEditor,
    message: Message,
    input: TickInput,
    blend: B,
    r: Effects,
)
    requires
        call_ensures(LucentEditor::update::<B>, (e, message, input, blend), r),
    ensures
        message is SetupToggled && final(e).show_setup && old(e).vault_path is Some ==> final(e).vault_path_input@ == old(e).vault_path->0@,
        message is SetupToggled && final(e).show_setup && old(e).vault_path is None ==> final(e).vault_path_input@.len() == 0,
        message is SetupToggled && !final(e).show_setup ==> final(e).vault_path_input@ == old(e).vault_path_input@,
        message is SaveVaultPath ==> (final(e).vault_path is Some <==> crate::text::trimmed(
            old(e).vault_path_input@,
        ).len() > 0),
        message is SaveVaultPath && final(e).vault_path is Some ==> final(e).vault_path->0@
            == crate::text::trimmed(old(e).vault_path_input@),
{
}

/// A switch turns over the relay at its place and no other.
pub proof fn law_a_relay_button_turns_its_relay<B: Fn(Level, Level) -> Level>(
    e: &mut LucentEditor,
    index: usize,
    input: TickInput,
    blend: B,
    r: Effects,
    i: int,
)
    requires
        call_ensures(LucentEditor::update::<B>, (e, Message::RelayToggled(index), input, blend), r),
        0 <= i < old(e).ui_state.relays@.len(),
    ensures
        final(e).ui_state.relays@.len() == old(e).ui_state.relays@.len(),
        final(e).ui_state.relays@[i].active == (old(e).ui_state.relays@[i].active != (i == index)),
        final(e).ui_state.relays@[i].name == old(e).ui_state.relays@[i].name,
        final(e).ui_state.relays@[i].spectrum == old(e).ui_state.relays@[i].spectrum,
{
}

/// An editor opens with its settings, nothing shown and nothing asked for.
pub proof fn law_an_editor_of_lucent_opens_at_rest(
    params: LucentParams,
    path: Option<String>,
    r: LucentEditor,
)
    requires
        call_ensures(LucentEditor::boot, (params, path), r),
    ensures
        r.params == params,
        r.vault_path == path,
        path is Some ==> r.vault_path_input@ == path->0@,
        path is None ==> r.vault_path_input@.len() == 0,
        params.name@.len() > 0 ==> r.ui_state.name@ == params.name@,
        params.name@.len() == 0 ==> r.ui_state.name@ == "Lucent"@,
        r.ui_state.relays@.len() == 0,
        !r.show_resonance && !r.show_masking && !r.show_setup,
        r.snap_blink == 0,
        !r.requests.snap_active && !r.requests.reset_peak,
        r.requests.holds.value.bits == 0xc2c8_0000,
        r.meters.output_peak.bits == 0xc2b4_0000,
        r.meters.holds.value.bits == 0xc2b4_0000,
        r.meters.phase_correlation.bits == 0x3f80_0000,
        r.meters.balance.bits == 0,
{
}

proof fn lemma_named_on(relays: Seq<crate::named_relays::RelayData>, n: nat)
    requires
        n <= relays.len(),
    ensures
        forall|i: int|
            0 <= i < switched_on(relays, n).len() ==> (#[trigger] switched_on(relays, n)[i]).active && exists|k: int|
                0 <= k < n && switched_on(relays, n)[i] == #[trigger] relays[k],
        forall|k: int|
            0 <= k < n && (#[trigger] relays[k]).active ==> switched_on(relays, n).contains(
                relays[k],
            ),
    decreases n,
{
    if n > 0 {
        lemma_named_on(relays, (n - 1) as nat);
        let before = switched_on(relays, (n - 1) as nat);
        let now = switched_on(relays, n);
        assert forall|i: int| 0 <= i < now.len() implies (#[trigger] now[i]).active && exists|k: int|
            0 <= k < n && now[i] == #[trigger] relays[k] by {
            if i < before.len() {
                assert(now[i] == before[i]);
                let k = choose|k: int| 0 <= k < n - 1 && before[i] == #[trigger] relays[k];
                assert(now[i] == relays[k]);
            } else {
                assert(relays[n - 1].active && now[i] == relays[n - 1]);
            }
        }
        assert forall|k: int| 0 <= k < n && (#[trigger] relays[k]).active implies now.contains(
            relays[k],
        ) by {
            if k < n - 1 {
                let i = choose|i: int| 0 <= i < before.len() && before[i] == relays[k];
                assert(now[i] == relays[k]);
            } else {
                assert(now.last() == relays[k]);
            }
        }
    }
}

proof fn lemma_slot_on(relays: Seq<RelayData>, n: nat)
    requires
        n <= relays.len(),
    ensures
        forall|i: int|
            0 <= i < on_relays(relays, n).len() ==> (#[trigger] on_relays(relays, n)[i]).active && exists|k: int|
                0 <= k < n && on_relays(relays, n)[i] == #[trigger] relays[k],
        forall|k: int|
            0 <= k < n && (#[trigger] relays[k]).active ==> on_relays(relays, n).contains(relays[k]),
    decreases n,
{
    if n > 0 {
        lemma_slot_on(relays, (n - 1) as nat);
        let before = on_relays(relays, (n - 1) as nat);
        let now = on_relays(relays, n);
        assert forall|i: int| 0 <= i < now.len() implies (#[trigger] now[i]).active && exists|k: int|
            0 <= k < n && now[i] == #[trigger] relays[k] by {
            if i < before.len() {
                assert(now[i] == before[i]);
                let k = choose|k: int| 0 <= k < n - 1 && before[i] == #[trigger] relays[k];
                assert(now[i] == relays[k]);
            } else {
                assert(relays[n - 1].active && now[i] == relays[n - 1]);
            }
        }
        assert forall|k: int| 0 <= k < n && (#[trigger] relays[k]).active implies now.contains(
            relays[k],
        ) by {
            if k < n - 1 {
                let i = choose|i: int| 0 <= i < before.len() && before[i] == relays[k];
                assert(now[i] == relays[k]);
            } else {
                assert(now.last() == relays[k]);
            }
        }
    }
}

/// The own spectrum is always drawn, without a colour of the relays; a relay is drawn where it is
/// switched on and the mode has relays, in the next of six colours.
pub proof fn law_active_relays_are_drawn(e: &LucentEditor, r: MainPanel, i: int, k: int)
    requires
        call_ensures(LucentEditor::render_main_panel, (e,), r),
    ensures
        r.curves@.len() >= 1,
        r.curves@[0].spectrum@ == e.ui_state.own_spectrum@,
        r.curves@[0].color is None,
        e.params.analyze_mode == 0 ==> r.curves@.len() == 1,
        0 < i < r.curves@.len() ==> r.curves@[i].color == Some(((i - 1) % 6) as usize) && exists|
            a: int,
        |
            0 <= a < e.ui_state.relays@.len() && (#[trigger] e.ui_state.relays@[a]).active
                && r.curves@[i].spectrum@ == e.ui_state.relays@[a].spectrum@,
        e.params.analyze_mode != 0 && 0 <= k < e.ui_state.relays@.len()
            && e.ui_state.relays@[k].active ==> exists|c: int|
            0 < c < r.curves@.len() && (#[trigger] r.curves@[c]).spectrum@
                == e.ui_state.relays@[k].spectrum@,
{
    let relays = e.ui_state.relays@;
    let on = switched_on(relays, relays.len());
    lemma_named_on(relays, relays.len());
    if e.params.analyze_mode != 0 {
        if 0 < i < r.curves@.len() {
            assert(r.curves@[(i - 1) + 1].spectrum@ == on[i - 1].spectrum@);
            assert(on[i - 1].active);
            let a = choose|a: int| 0 <= a < relays.len() && on[i - 1] == #[trigger] relays[a];
            assert(relays[a].active && r.curves@[i].spectrum@ == relays[a].spectrum@);
        }
        if 0 <= k < relays.len() && relays[k].active {
            let c = choose|c: int| 0 <= c < on.len() && on[c] == relays[k];
            assert(r.curves@[c + 1].spectrum@ == on[c].spectrum@);
        }
    }
}

/// Resonances and masking are drawn where they are switched on, masking only with relays or where
/// relays alone count; the bar has up to six buttons, and none without relays.
pub proof fn law_switches_decide_what_is_drawn(e: &LucentEditor, r: MainPanel)
    requires
        call_ensures(LucentEditor::render_main_panel, (e,), r),
    ensures
        r.alone <==> e.params.analyze_mode == 0 || e.ui_state.relays@.len() == 0,
        e.show_resonance ==> r.resonance_peaks@ == e.resonance_cache@,
        !e.show_resonance ==> r.resonance_peaks@.len() == 0,
        e.show_masking && (e.ui_state.relays@.len() > 0 || e.params.analyze_mode == 2) ==> r.masking@
            == e.masking_cache@,
        !e.show_masking || (e.ui_state.relays@.len() == 0 && e.params.analyze_mode != 2)
            ==> r.masking@.len() == 0,
        e.params.analyze_mode == 0 ==> r.relay_bar == RelayBar::Hidden,
        e.params.analyze_mode != 0 && e.ui_state.relays@.len() == 0 ==> r.relay_bar
            == RelayBar::Placeholder,
        e.params.analyze_mode != 0 && 0 < e.ui_state.relays@.len() <= 6 ==> r.relay_bar
            == RelayBar::Buttons(e.ui_state.relays@.len() as usize),
        e.params.analyze_mode != 0 && e.ui_state.relays@.len() > 6 ==> r.relay_bar
            == RelayBar::Buttons(6),
{
}

/// The summaries list the first three resonances and the three loudest masked bins above -70 dB,
/// the latter only with relays.
pub proof fn law_summaries_list_three(
    e: &LucentEditor,
    own: Vec<(usize, Level)>,
    areas: Vec<(usize, Level)>,
    i: int,
)
    requires
        e.masking_cache@.len() <= usize::MAX,
        call_ensures(LucentEditor::listed_resonances, (e,), own),
        call_ensures(LucentEditor::listed_masking, (e,), areas),
    ensures
        own@.len() == (if e.resonance_cache@.len() < 3 {
            e.resonance_cache@.len()
        } else {
            3
        }),
        0 <= i < own@.len() ==> own@[i] == e.resonance_cache@[i],
        areas@.len() <= 3,
        e.params.analyze_mode == 0 || e.ui_state.relays@.len() == 0 ==> areas@.len() == 0,
        0 <= i < areas@.len() ==> areas@[i].0 < e.masking_cache@.len() && areas@[i].1
            == e.masking_cache@[areas@[i].0 as int] && areas@[i].1.above(Level { bits: 0xc28c_0000 }),
        0 < i < areas@.len() ==> areas@[i - 1].1.at_least(areas@[i].1),
{
    let map = e.masking_cache@;
    let floor = Level { bits: 0xc28c_0000 };
    if e.params.analyze_mode != 0 && e.ui_state.relays@.len() > 0 {
        let found = crate::masking::bins_above(map, floor, map.len());
        let order = choose|order: Seq<usize>|
            #![trigger crate::rank::ranking(levels_of(found), order)]
            crate::rank::ranking(levels_of(found), order) && areas@ == crate::rank::picked(
                found,
                order,
                3,
            );
        assert(levels_of(found) =~= crate::masking::peak_levels(map, floor));
        crate::collision_laws::law_top_bins_are_the_loudest(map, floor, order, 3, 0);
    }
}

/// The texts of the summaries.
pub proof fn law_summaries_tell_where_nothing_is(
    e: &LucentEditor,
    lines: &Vec<String>,
    own: String,
    areas: String,
    snap: String,
)
    requires
        call_ensures(LucentEditor::resonance_summary, (e, lines), own),
        call_ensures(LucentEditor::masking_summary, (e, lines), areas),
        call_ensures(LucentEditor::snap_label, (e,), snap),
    ensures
        e.resonance_cache@.len() == 0 ==> own@ == "No resonances detected"@,
        e.params.analyze_mode == 0 ==> areas@ == "Standalone — no masking"@,
        e.params.analyze_mode != 0 && lines@.len() == 0 ==> areas@ == "No masking detected"@,
        e.snap_blink > 0 ==> snap@ == "ANALYZING..."@,
        e.snap_blink == 0 ==> snap@ == "SNAP"@,
{
}

proof fn lemma_held_again(entries: Seq<(usize, Level)>, bin: usize, score: Level)
    requires
        distinct(score_bins(entries)),
        numbers(entries),
        !score.nan(),
    ensures
        distinct(score_bins(score_held(entries, bin, score))),
        numbers(score_held(entries, bin, score)),
{
    let bins = score_bins(entries);
    lemma_place(bins, bin, bins.len());
    let after = score_held(entries, bin, score);
    match place(bins, bin, bins.len()) {
        Some(k) => {
            assert(score_bins(after) =~= bins);
        },
        None => {
            assert(score_bins(after) =~= bins.push(bin));
        },
    }
}

proof fn lemma_all_held(entries: Seq<(usize, Level)>, peaks: Seq<(usize, Level)>, n: nat)
    requires
        distinct(score_bins(entries)),
        numbers(entries),
        numbers(peaks),
        n <= peaks.len(),
    ensures
        distinct(score_bins(scores_after(entries, peaks, n))),
        numbers(scores_after(entries, peaks, n)),
        scores_after(entries, peaks, n).len() >= entries.len(),
        forall|i: int|
            0 <= i < entries.len() ==> (#[trigger] scores_after(entries, peaks, n)[i]).0
                == entries[i].0 && !entries[i].1.above(scores_after(entries, peaks, n)[i].1),
        forall|p: int| 0 <= p < n ==> #[trigger] held_at(scores_after(entries, peaks, n), peaks[p]),
    decreases n,
{
    if n > 0 {
        lemma_all_held(entries, peaks, (n - 1) as nat);
        let before = scores_after(entries, peaks, (n - 1) as nat);
        let after = scores_after(entries, peaks, n);
        let x = peaks[n - 1];
        law_score_holds_never_fall(before, x.0, x.1);
        lemma_held_again(before, x.0, x.1);
        assert forall|p: int| 0 <= p < n implies #[trigger] held_at(after, peaks[p]) by {
            if p < n - 1 {
                assert(held_at(before, peaks[p]));
                let i = choose|i: int|
                    0 <= i < before.len() && (#[trigger] before[i]).0 == peaks[p].0
                        && !peaks[p].1.above(before[i].1);
                assert(after[i].0 == before[i].0 && !before[i].1.above(after[i].1));
                assert(!before[i].1.nan() && !peaks[p].1.nan());
                assert(!after[i].1.nan());
            } else {
                let i = choose|i: int|
                    0 <= i < after.len() && (#[trigger] after[i]).0 == x.0 && !x.1.above(after[i].1);
                assert(after[i].0 == x.0);
            }
        }
        assert forall|i: int| 0 <= i < entries.len() implies (#[trigger] after[i]).0
            == entries[i].0 && !entries[i].1.above(after[i].1) by {
            assert(before[i].0 == entries[i].0);
            assert(after[i].0 == before[i].0);
            assert(!before[i].1.nan());
        }
    }
}

/// Whether a list holds a peak: something at its bin that is not below it.
pub open spec fn held_at(entries: Seq<(usize, Level)>, peak: (usize, Level)) -> bool {
    exists|i: int|
        0 <= i < entries.len() && (#[trigger] entries[i]).0 == peak.0 && !peak.1.above(entries[i].1)
}

/// Named levels without their names.
pub open spec fn without_names(e: Seq<NamedModel>) -> Seq<(usize, Level)> {
    e.map_values(|m: NamedModel| (m.0, m.1))
}

proof fn lemma_without_names(entries: Seq<NamedModel>, peaks: Seq<NamedModel>, n: nat)
    requires
        n <= peaks.len(),
    ensures
        without_names(named_after(entries, peaks, n)) == scores_after(
            without_names(entries),
            without_names(peaks),
            n,
        ),
    decreases n,
{
    if n > 0 {
        lemma_without_names(entries, peaks, (n - 1) as nat);
        let before = named_after(entries, peaks, (n - 1) as nat);
        let x = peaks[n - 1];
        assert(named_bins(before) =~= score_bins(without_names(before)));
        lemma_place(named_bins(before), x.0, before.len());
        assert(without_names(peaks)[n - 1] == (x.0, x.1));
        assert(without_names(named_held(before, x.0, x.1, x.2)) =~= score_held(
            without_names(before),
            x.0,
            x.1,
        ));
    }
}

/// The bins and levels of named peaks.
pub open spec fn bins_and_levels(peaks: Seq<NamedPeak>) -> Seq<(usize, Level)> {
    peaks.map_values(|p: NamedPeak| (p.0, p.1))
}

proof fn lemma_gathered_named(
    before: Seq<NamedPeak>,
    peaks: Seq<NamedPeak>,
    after: Seq<NamedPeak>,
    p: int,
)
    requires
        distinct(named_bins(named_peaks(before))),
        forall|i: int| 0 <= i < before.len() ==> !(#[trigger] before[i]).1.nan(),
        forall|i: int| 0 <= i < peaks.len() ==> !(#[trigger] peaks[i]).1.nan(),
        named_peaks(after) == named_after(named_peaks(before), named_peaks(peaks), peaks.len()),
        0 <= p < peaks.len(),
    ensures
        held_at(bins_and_levels(after), (peaks[p].0, peaks[p].1)),
{
    let e = named_peaks(before);
    let q = named_peaks(peaks);
    lemma_without_names(e, q, peaks.len());
    assert(without_names(named_peaks(after)) =~= bins_and_levels(after));
    assert(without_names(e) =~= bins_and_levels(before));
    assert(without_names(q) =~= bins_and_levels(peaks));
    assert(score_bins(bins_and_levels(before)) =~= named_bins(e));
    lemma_all_held(bins_and_levels(before), bins_and_levels(peaks), peaks.len());
    assert(held_at(bins_and_levels(after), bins_and_levels(peaks)[p]));
}

/// A finding is held at its bin, or something louder is, for the panels and for the next snapshot
/// alike: resonances of the own signal with those, resonances of the group with those, and masking
/// areas with those.
pub proof fn law_findings_are_held_where_they_belong(
    a: &mut TickAccum,
    lists: &ResonanceLists,
    masking: &Vec<NamedPeak>,
    u: (),
    i: int,
    j: int,
    k: int,
)
    requires
        old(a).wf(),
        numbers(lists.own@),
        crate::lucent_panel::named_numbers(lists.relay@),
        crate::lucent_panel::named_numbers(masking@),
        call_ensures(TickAccum::gather, (a, lists, masking), u),
        0 <= i < lists.own@.len(),
        0 <= j < lists.relay@.len(),
        0 <= k < masking@.len(),
    ensures
        held_at(final(a).display.own.entries@, lists.own@[i]),
        held_at(final(a).session.own.entries@, lists.own@[i]),
        held_at(
            bins_and_levels(final(a).display.group.entries@),
            (lists.relay@[j].0, lists.relay@[j].1),
        ),
        held_at(
            bins_and_levels(final(a).session.group.entries@),
            (lists.relay@[j].0, lists.relay@[j].1),
        ),
        held_at(
            bins_and_levels(final(a).display.masking.entries@),
            (masking@[k].0, masking@[k].1),
        ),
        held_at(
            bins_and_levels(final(a).session.masking.entries@),
            (masking@[k].0, masking@[k].1),
        ),
{
    lemma_all_held(old(a).display.own.entries@, lists.own@, lists.own@.len());
    lemma_all_held(old(a).session.own.entries@, lists.own@, lists.own@.len());
    assert(held_at(
        scores_after(old(a).display.own.entries@, lists.own@, lists.own@.len()),
        lists.own@[i],
    ));
    assert(held_at(
        scores_after(old(a).session.own.entries@, lists.own@, lists.own@.len()),
        lists.own@[i],
    ));
    lemma_gathered_named(
        old(a).display.group.entries@,
        lists.relay@,
        final(a).display.group.entries@,
        j,
    );
    lemma_gathered_named(
        old(a).session.group.entries@,
        lists.relay@,
        final(a).session.group.entries@,
        j,
    );
    lemma_gathered_named(
        old(a).display.masking.entries@,
        masking@,
        final(a).display.masking.entries@,
        k,
    );
    lemma_gathered_named(
        old(a).session.masking.entries@,
        masking@,
        final(a).session.masking.entries@,
        k,
    );
}

/// The panels list anew every 500 ms, and then hold nothing; up to there nothing changes.
pub proof fn law_panels_list_anew_twice_a_second(
    a: &mut TickAccum,
    now: u64,
    r: Option<RankedFindings>,
)
    requires
        old(a).wf(),
        call_ensures(TickAccum::refresh, (a, now), r),
    ensures
        r is Some <==> now - old(a).window_start_ms >= 500,
        r is Some ==> r->0.own@.len() <= 3 && final(a).window_start_ms == now,
        r is Some ==> final(a).display.own.entries@.len() == 0 && final(a).display.group.entries@.len() == 0 && final(a).display.masking.entries@.len() == 0,
        r is None ==> *final(a) == *old(a),
        final(a).session == old(a).session,
{
}

/// A snapshot is saved where it was asked for and there is a folder; what was held for it is then
/// held no longer.  The button pulses for 72 ticks from the one it was asked for in.
pub proof fn law_a_snapshot_takes_what_is_held(a: &mut TickAccum, r: Option<RankedFindings>)
    requires
        old(a).wf(),
        call_ensures(TickAccum::end_tick, (a,), r),
    ensures
        r is Some <==> old(a).snap_request && old(a).vault_path is Some && old(a).vault_path->0@.len() > 0,
        !final(a).snap_request,
        r is Some ==> final(a).session.own.entries@.len() == 0 && final(a).session.group.entries@.len() == 0 && final(a).session.masking.entries@.len() == 0,
        r is None ==> final(a).session == old(a).session,
        final(a).display == old(a).display,
        old(a).snap_request ==> final(a).snap_blink == 71,
        !old(a).snap_request && old(a).snap_blink > 0 ==> final(a).snap_blink == old(a).snap_blink
            - 1,
        !old(a).snap_request && old(a).snap_blink == 0 ==> final(a).snap_blink == 0,
{
}

/// The snapshot button asks for a snapshot where there is a folder, and else for a folder.
pub proof fn law_a_snapshot_needs_a_folder(a: &mut TickAccum, u: ())
    requires
        old(a).wf(),
        call_ensures(TickAccum::press_snap, (a,), u),
    ensures
        old(a).vault_path is Some && old(a).vault_path->0@.len() > 0 ==> final(a).snap_request
            && final(a).setup_visible == old(a).setup_visible,
        old(a).vault_path is None || old(a).vault_path->0@.len() == 0 ==> final(a).setup_visible
            && final(a).snap_request == old(a).snap_request,
        final(a).session == old(a).session && final(a).display == old(a).display,
{
}

/// A folder that is saved is the text without the white space around it; the set-up then closes.
pub proof fn law_a_saved_folder_is_trimmed(a: &mut TickAccum, input: &String, u: ())
    requires
        old(a).wf(),
        call_ensures(TickAccum::save_vault_path, (a, input), u),
    ensures
        !final(a).setup_visible,
        final(a).vault_path is Some <==> crate::text::trimmed(input@).len() > 0,
        final(a).vault_path is Some ==> final(a).vault_path->0@ == crate::text::trimmed(input@),
        final(a).snap_request == old(a).snap_request,
{
}

/// Without relays by the mode none are kept and no slot is on; else every feed is a relay, and a
/// slot is on where one of them is switched on.
pub proof fn law_a_tick_keeps_its_feeds<B: Fn(Level, Level) -> Level>(
    a: &mut TickAccum,
    mode: i64,
    own: Option<Vec<Level>>,
    shown: &Vec<(u8, bool)>,
    feeds: Vec<(u8, String, Vec<Level>)>,
    blend: B,
    mask: u32,
    i: int,
    slot: u32,
)
    requires
        old(a).wf(),
        call_ensures(TickAccum::sync::<B>, (a, mode, own, shown, feeds, blend), mask),
        slot < 32,
    ensures
        own is Some ==> final(a).ui.own_spectrum == own->0,
        own is None ==> final(a).ui.own_spectrum == old(a).ui.own_spectrum,
        mode == 0 ==> final(a).ui.relays@.len() == 0 && mask == 0,
        mode != 0 ==> final(a).ui.relays@.len() == feeds@.len(),
        mode != 0 && 0 <= i < feeds@.len() ==> final(a).ui.relays@[i].slot == feeds@[i].0 && final(a).ui.relays@[i].name@ == feeds@[i].1@,
        mode != 0 && 0 <= i < feeds@.len() && feeds@[i].0 == slot && final(a).ui.relays@[i].active
            ==> (mask >> slot) & 1 == 1,
        final(a).session == old(a).session && final(a).display == old(a).display,
{
    let after = *final(a);
    if mode != 0 {
        let switched = crate::lucent_panel::switches_applied(
            old(a).ui.relays@,
            shown@,
            shown@.len(),
        );
        if 0 <= i < feeds@.len() {
            assert(crate::relay_state::fed(blend, switched, feeds@[i], after.ui.relays@[i]));
            lemma_active(after.ui.relays@, slot, i, after.ui.relays@.len());
            assert(bit(mask, slot) <==> crate::relay_state::slot_active(
                after.ui.relays@,
                slot,
                after.ui.relays@.len(),
            ));
        }
    }
}

proof fn lemma_active(relays: Seq<RelayData>, slot: u32, i: int, n: nat)
    requires
        0 <= i < n <= relays.len(),
    ensures
        relays[i].slot == slot && relays[i].active ==> crate::relay_state::slot_active(
            relays,
            slot,
            n,
        ),
    decreases n,
{
    if i < n - 1 {
        lemma_active(relays, slot, i, (n - 1) as nat);
    }
}

/// A tick of the panel takes up what it reads, tells whether anything shown has changed, and shows
/// the new state where it has.
pub proof fn law_a_tick_shows_what_it_reads<
    B: Fn(Level, Level) -> Level,
    H: Fn(usize) -> String,
    L: Fn(Level) -> String,
>(
    p: &mut LucentPanel,
    feed: TickFeed,
    blend: B,
    words: &Words<H, L>,
    r: TickOutcome,
    i: int,
)
    requires
        old(p).wf(),
        call_ensures(LucentPanel::tick::<B, H, L>, (p, feed, blend, words), r),
    ensures
        r.changed ==> final(p).shown.show_resonance == feed.show_resonance && final(p).shown.show_masking == feed.show_masking && final(p).shown.meters == feed.meters && final(p).shown.resonance.own@ == feed.lists.own@ && final(p).shown.own_spectrum@ == final(p).accum.ui.own_spectrum@ && final(p).shown.snap_blink == final(p).accum.snap_blink,
        r.changed && feed.masking is Some ==> final(p).shown.masking@ == feed.masking->0@,
        r.changed && feed.masking is None ==> final(p).shown.masking@ == old(p).shown.masking@,
        r.changed ==> final(p).shown.relays@.len() == final(p).accum.ui.relays@.len(),
        r.changed && 0 <= i < final(p).shown.relays@.len() ==> final(p).shown.relays@[i].slot
            == final(p).accum.ui.relays@[i].slot && final(p).shown.relays@[i].name@
            == final(p).accum.ui.relays@[i].name@ && final(p).shown.relays@[i].active
            == final(p).accum.ui.relays@[i].active && final(p).shown.relays@[i].spectrum@
            == final(p).accum.ui.relays@[i].spectrum@,
        r.changed && feed.now_ms - old(p).accum.window_start_ms >= 500 ==> exists|
            own: Seq<Finding>,
            group: Seq<Finding>,
            areas: Seq<Finding>,
        |
            own.len() <= 3 && group.len() <= 3 && areas.len() <= 3 && #[trigger] texts_tell(
                own,
                group,
                areas,
                feed.mode,
                old(p).accum.ui.relays@.len(),
                final(p).shown,
            ),
        r.changed && feed.now_ms - old(p).accum.window_start_ms < 500 ==> final(p).shown.resonance_text@ == old(p).shown.resonance_text@ && final(p).shown.masking_text@
            == old(p).shown.masking_text@,
        !r.changed ==> final(p).shown == old(p).shown,
        feed.show_resonance != old(p).shown.show_resonance ==> r.changed,
        feed.show_masking != old(p).shown.show_masking ==> r.changed,
        feed.own_spectrum is Some ==> final(p).accum.ui.own_spectrum == feed.own_spectrum->0,
        feed.mode == 0 ==> final(p).accum.ui.relays@.len() == 0 && r.relay_mask == 0,
        feed.mode != 0 ==> final(p).accum.ui.relays@.len() == feed.feeds@.len(),
        r.snapshot is Some <==> old(p).accum.snap_request && old(p).accum.vault_path is Some && old(p).accum.vault_path->0@.len() > 0,
        feed.now_ms - old(p).accum.window_start_ms >= 500 ==> final(p).accum.window_start_ms
            == feed.now_ms,
        feed.now_ms - old(p).accum.window_start_ms < 500 ==> final(p).accum.window_start_ms == old(p).accum.window_start_ms,
{
    let before = *old(p);
    let after = *final(p);
    let (gathered, refreshed, synced, found, next): (
        TickAccum,
        TickAccum,
        TickAccum,
        Option<RankedFindings>,
        Telemetry,
    ) = choose|
        gathered: TickAccum,
        refreshed: TickAccum,
        synced: TickAccum,
        found: Option<RankedFindings>,
        next: Telemetry,
    |
        {
            &&& TickAccum::gathers(before.accum, feed.lists, feed.areas@, gathered)
            &&& #[trigger] TickAccum::refreshes(gathered, feed.now_ms, found, refreshed)
            &&& #[trigger] TickAccum::follows(
                blend,
                refreshed,
                feed.mode,
                feed.own_spectrum,
                switches(before.shown.relays@),
                feed.feeds@,
                r.relay_mask,
                synced,
            )
            &&& TickAccum::ends(synced, r.snapshot, after.accum)
            &&& #[trigger] shows(
                *words,
                before.shown,
                feed,
                found,
                before.accum.ui.relays@.len(),
                synced,
                next,
            )
            &&& next.snap_blink == after.accum.snap_blink
            &&& r.changed == !equal_shown(next, before.shown)
            &&& after.shown == (if r.changed {
                next
            } else {
                before.shown
            })
        };
    assert(TickAccum::refreshes(gathered, feed.now_ms, found, refreshed));
    assert(TickAccum::ends(synced, r.snapshot, after.accum));
    if r.changed && 0 <= i < after.shown.relays@.len() {
        assert(same_relay(after.shown.relays@[i], synced.ui.relays@[i]));
    }
    if r.changed && feed.now_ms - before.accum.window_start_ms >= 500 {
        let f = found->0;
        let (own, group, areas) = choose|own: Seq<Finding>, group: Seq<Finding>, areas: Seq<Finding>|
            {
                &&& #[trigger] all_written(*words, f.own@, own)
                &&& #[trigger] named_written(*words, f.group@, group)
                &&& #[trigger] named_written(*words, f.masking@, areas)
                &&& next.resonance_text@ == resonance_panel(own, group)
                &&& next.masking_text@ == masking_panel(
                    feed.mode,
                    before.accum.ui.relays@.len(),
                    areas,
                )
            };
        lemma_at_most(gathered.display.group.entries@, f.group@);
        lemma_at_most(gathered.display.masking.entries@, f.masking@);
        assert(texts_tell(
            own,
            group,
            areas,
            feed.mode,
            before.accum.ui.relays@.len(),
            after.shown,
        ));
    }
}

proof fn lemma_at_most(peaks: Seq<NamedPeak>, r: Seq<NamedPeak>)
    requires
        named_ranked(peaks, 3, r),
    ensures
        r.len() <= 3,
{
    assert(named_peaks(r).len() == r.len());
}

/// Whether the panel texts are those of findings.
pub open spec fn texts_tell(
    own: Seq<Finding>,
    group: Seq<Finding>,
    areas: Seq<Finding>,
    mode: i64,
    relays: nat,
    shown: Telemetry,
) -> bool {
    &&& shown.resonance_text@ == resonance_panel(own, group)
    &&& shown.masking_text@ == masking_panel(mode, relays, areas)
}

/// The button of a relay turns over the switch that is shown at its place, and no other.
pub proof fn law_a_panel_button_turns_its_relay(p: &mut LucentPanel, idx: usize, u: (), i: int)
    requires
        old(p).wf(),
        call_ensures(LucentPanel::press_relay, (p, idx), u),
        0 <= i < old(p).shown.relays@.len(),
    ensures
        final(p).shown.relays@.len() == old(p).shown.relays@.len(),
        final(p).shown.relays@[i].active == (old(p).shown.relays@[i].active != (i == idx)),
        final(p).shown.relays@[i].slot == old(p).shown.relays@[i].slot,
        final(p).accum == old(p).accum,
{
}

/// The panel draws the own spectrum and the relays that are switched on, has a button for each of
/// the first eight relays, and draws resonances and masking where they are switched on.
pub proof fn law_the_panel_draws_what_is_switched_on(
    p: &LucentPanel,
    mode: i64,
    r: PanelView,
    i: int,
    k: int,
)
    requires
        call_ensures(LucentPanel::main_panel, (p, mode), r),
    ensures
        mode == 0 ==> r.relay_bar is None && r.curves@.len() == 1 && !r.masking_switch,
        mode != 0 ==> r.relay_bar is Some && r.masking_switch,
        mode != 0 ==> r.relay_bar->0@.len() == (if p.shown.relays@.len() < 8 {
            p.shown.relays@.len()
        } else {
            8
        }),
        mode != 0 && 0 <= i < r.relay_bar->0@.len() ==> r.relay_bar->0@[i].0@
            == p.shown.relays@[i].name@ && r.relay_bar->0@[i].1 == p.shown.relays@[i].active,
        r.placeholder <==> mode != 0 && p.shown.relays@.len() == 0,
        r.alone <==> mode == 0 || p.shown.relays@.len() == 0,
        r.curves@[0].spectrum@ == p.shown.own_spectrum@ && r.curves@[0].color is None,
        0 < i < r.curves@.len() ==> r.curves@[i].color == Some(((i - 1) % 6) as usize) && exists|
            a: int,
        |
            0 <= a < p.shown.relays@.len() && (#[trigger] p.shown.relays@[a]).active
                && r.curves@[i].spectrum@ == p.shown.relays@[a].spectrum@,
        mode != 0 && 0 <= k < p.shown.relays@.len() && p.shown.relays@[k].active ==> exists|c: int|
            0 < c < r.curves@.len() && (#[trigger] r.curves@[c]).spectrum@
                == p.shown.relays@[k].spectrum@,
        !p.shown.show_resonance ==> r.resonance_peaks@.len() == 0,
        p.shown.show_resonance ==> r.resonance_peaks@.len() == p.shown.resonance.own@.len()
            + p.shown.resonance.relay@.len(),
        p.shown.show_resonance && 0 <= i < p.shown.resonance.own@.len() ==> r.resonance_peaks@[i]
            == p.shown.resonance.own@[i],
        p.shown.show_resonance && 0 <= i < p.shown.resonance.relay@.len()
            ==> r.resonance_peaks@[p.shown.resonance.own@.len() + i] == (
            p.shown.resonance.relay@[i].0,
            p.shown.resonance.relay@[i].1,
        ),
        p.shown.show_masking && (p.shown.relays@.len() > 0 || mode == 2) ==> r.masking@
            == p.shown.masking@,
        !p.shown.show_masking || (p.shown.relays@.len() == 0 && mode != 2) ==> r.masking@.len() == 0,
{
    let relays = p.shown.relays@;
    let on = on_relays(relays, relays.len());
    lemma_slot_on(relays, relays.len());
    if mode != 0 {
        if 0 < i < r.curves@.len() {
            assert(r.curves@[(i - 1) + 1].spectrum@ == on[i - 1].spectrum@);
            assert(on[i - 1].active);
            let a = choose|a: int| 0 <= a < relays.len() && on[i - 1] == #[trigger] relays[a];
            assert(relays[a].active && r.curves@[i].spectrum@ == relays[a].spectrum@);
        }
        if 0 <= k < relays.len() && relays[k].active {
            let c = choose|c: int| 0 <= c < on.len() && on[c] == relays[k];
            assert(r.curves@[c + 1].spectrum@ == on[c].spectrum@);
        }
    }
}

/// Masking is drawn where it is switched on, with relays or where relays alone count.
pub proof fn law_masking_needs_relays(on: bool, relays: usize, mode: i64, r: bool)
    requires
        call_ensures(shows_masking, (on, relays, mode), r),
    ensures
        !on ==> !r,
        on && relays > 0 ==> r,
        on && relays == 0 ==> r == (mode == 2),
{
}

/// Two states show the same only where all that they show is the same.
pub proof fn law_any_difference_is_a_change(a: &Telemetry, b: &Telemetry, r: bool, i: int)
    requires
        call_ensures(shown_equal, (a, b), r),
        r,
    ensures
        a.own_spectrum@.len() == b.own_spectrum@.len(),
        0 <= i < a.own_spectrum@.len() ==> a.own_spectrum@[i].same(b.own_spectrum@[i]),
        a.masking@.len() == b.masking@.len(),
        0 <= i < a.masking@.len() ==> a.masking@[i].same(b.masking@[i]),
        a.relays@.len() == b.relays@.len(),
        0 <= i < a.relays@.len() ==> a.relays@[i].slot == b.relays@[i].slot && a.relays@[i].name@
            == b.relays@[i].name@ && a.relays@[i].active == b.relays@[i].active
            && a.relays@[i].spectrum@.len() == b.relays@[i].spectrum@.len(),
        a.resonance.own@.len() == b.resonance.own@.len(),
        0 <= i < a.resonance.own@.len() ==> a.resonance.own@[i].0 == b.resonance.own@[i].0
            && a.resonance.own@[i].1.same(b.resonance.own@[i].1),
        a.resonance.relay@.len() == b.resonance.relay@.len(),
        0 <= i < a.resonance.relay@.len() ==> a.resonance.relay@[i].0 == b.resonance.relay@[i].0
            && a.resonance.relay@[i].1.same(b.resonance.relay@[i].1) && texts(
            a.resonance.relay@[i].2@,
        ) == texts(b.resonance.relay@[i].2@),
        a.resonance_text@ == b.resonance_text@ && a.masking_text@ == b.masking_text@,
        a.show_resonance == b.show_resonance && a.show_masking == b.show_masking && a.snap_blink
            == b.snap_blink,
        a.meters.peak_l.same(b.meters.peak_l) && a.meters.peak_r.same(b.meters.peak_r)
            && a.meters.hold.same(b.meters.hold) && a.meters.hold_l.same(b.meters.hold_l)
            && a.meters.hold_r.same(b.meters.hold_r) && a.meters.correlation.same(
            b.meters.correlation,
        ) && a.meters.balance.same(b.meters.balance),
{
    if 0 <= i < a.relays@.len() {
        assert(crate::lucent_change::equal_relay(a.relays@[i], b.relays@[i]));
    }
}

} // verus!
