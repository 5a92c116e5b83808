//! What holds of relays, of the Lucents they turn to, and of what Lucent shows of them.

use crate::level::Level;
use crate::max_hold::{
    law_score_holds_never_fall, lemma_place, max_hold_named, max_hold_score, named_bins, NamedHold,
    ScoreHold,
};
use crate::named_relays;
use crate::registry::named_peaks;
use crate::relay::{
    liveness_notice, make_slot_label, published_slot, resolve_live_target, right_channel,
    LucentRelay, Notice, RelayPersist, StateLoadError,
};
use crate::relay_editor::{
    connection_text, selected, status, update, EditorModel, Message, RelayPanel, RelayTelemetry,
    RelayTick, StatusTone,
};
use crate::relay_state;
use crate::saved_state::fits;
use crate::text::{decimal, first_place, lemma_first_place, texts};
use vstd::prelude::*;
use vstd::string::*;

verus! {

/// Whether a name is among those of a list.
pub open spec fn among(list: Seq<String>, name: Seq<char>) -> bool {
    exists|k: int| 0 <= k < list.len() && (#[trigger] list[k])@ == name
}

proof fn lemma_among(list: Seq<String>, name: Seq<char>)
    ensures
        texts(list).contains(name) <==> among(list, name),
        texts(list).len() == list.len(),
{
    if texts(list).contains(name) {
        let k = choose|k: int| 0 <= k < texts(list).len() && texts(list)[k] == name;
        assert(list[k]@ == name);
    }
    if among(list, name) {
        let k = choose|k: int| 0 <= k < list.len() && (#[trigger] list[k])@ == name;
        assert(texts(list)[k] == name);
    }
}

/// A living relay turns to the only Lucent there is; where there are more, to the chosen one if it
/// is among them, and else to none.
pub proof fn law_a_living_relay_turns_to_its_lucent(
    lucents: &Vec<String>,
    chosen: &String,
    r: Option<String>,
)
    requires
        call_ensures(resolve_live_target, (lucents, chosen), r),
    ensures
        lucents@.len() == 1 ==> r is Some && r->0@ == lucents@[0]@,
        lucents@.len() != 1 && among(lucents@, chosen@) ==> r is Some && r->0@ == chosen@,
        lucents@.len() != 1 && !among(lucents@, chosen@) ==> r is None,
{
    lemma_among(lucents@, chosen@);
    if lucents@.len() == 1 {
        assert(texts(lucents@)[0] == lucents@[0]@);
    }
}

/// Slots are counted from one in labels, and from zero where they are published.
pub proof fn law_slots_have_their_numbers(slot: u8, label: String, held: Option<u8>, number: i32)
    requires
        call_ensures(make_slot_label, (slot,), label),
        call_ensures(published_slot, (held,), number),
    ensures
        label@ == "Relay "@ + decimal((slot + 1) as nat),
        held is Some ==> number == held->0,
        held is None ==> number == -1,
{
}

/// A relay with a slot and a Lucent to turn to gives a sign of life under its name, or under the
/// label of its slot; without either it gives none.
pub proof fn law_a_relay_is_alive_with_a_slot_and_a_lucent(
    slot: i32,
    lucents: &Vec<String>,
    p: &RelayPersist,
    r: Option<Notice>,
)
    requires
        slot <= 255,
        call_ensures(liveness_notice, (slot, lucents, p), r),
    ensures
        r is Some <==> slot >= 0 && (lucents@.len() == 1 || among(lucents@, p.target@)),
        r is Some ==> r->0.slot == slot,
        r is Some && p.name@.len() > 0 ==> r->0.label@ == p.name@,
        r is Some && p.name@.len() == 0 ==> r->0.label@ == "Relay "@ + decimal((slot + 1) as nat),
        r is Some && lucents@.len() == 1 ==> r->0.target@ == lucents@[0]@,
        r is Some && lucents@.len() != 1 ==> r->0.target@ == p.target@,
{
    lemma_among(lucents@, p.target@);
    if lucents@.len() == 1 {
        assert(texts(lucents@)[0] == lucents@[0]@);
    }
}

/// A frame goes to the chosen Lucent where it is there, else to the only one; from the slot that is
/// held, under the name or the label.
pub proof fn law_a_frame_goes_to_its_lucent(
    l: &LucentRelay,
    found: bool,
    single: &Option<String>,
    r: Option<Notice>,
)
    requires
        call_ensures(LucentRelay::publish_fft, (l, found, single), r),
    ensures
        r is Some <==> l.claimed_slot is Some && (l.cached_target@.len() > 0 && found
            || *single is Some),
        r is Some ==> Some(r->0.slot) == l.claimed_slot,
        r is Some && l.cached_target@.len() > 0 && found ==> r->0.target@ == l.cached_target@,
        r is Some && !(l.cached_target@.len() > 0 && found) ==> r->0.target@ == (*single)->0@,
        r is Some && l.cached_name@.len() > 0 ==> r->0.label@ == l.cached_name@,
        r is Some && l.cached_name@.len() == 0 ==> r->0.label@ == l.fallback_label@,
{
}

/// A relay keeps the slot it holds, and takes one only where it holds none; it is labelled after
/// the slot it takes.
pub proof fn law_a_relay_keeps_its_slot(
    l: &mut LucentRelay,
    offered: Option<u8>,
    u: (),
    m: &mut LucentRelay,
    r: Option<u8>,
)
    requires
        offered is Some ==> offered->0 < 255,
        call_ensures(LucentRelay::claim_slot, (l, offered), u),
        call_ensures(LucentRelay::release, (m,), r),
    ensures
        old(l).claimed_slot is Some ==> final(l).claimed_slot == old(l).claimed_slot && final(l).fallback_label@ == old(l).fallback_label@,
        old(l).claimed_slot is None ==> final(l).claimed_slot == offered,
        old(l).claimed_slot is None && offered is Some ==> final(l).fallback_label@ == "Relay "@
            + decimal((offered->0 + 1) as nat),
        final(l).claimed_slot is Some ==> final(l).shm_slot == final(l).claimed_slot->0,
        final(l).claimed_slot is None ==> final(l).shm_slot == -1,
        r == old(m).claimed_slot,
        final(m).claimed_slot is None,
{
}

/// What a relay saves is what another one loads: the name as the name and the target as the target.
pub proof fn law_a_saved_relay_loads_its_settings(
    a: &LucentRelay,
    bytes: Vec<u8>,
    b: &mut LucentRelay,
    data: &[u8],
    r: Result<(), StateLoadError>,
)
    requires
        fits(a.relay_handle.0.name@),
        fits(a.relay_handle.0.target@),
        call_ensures(LucentRelay::save_state, (a,), bytes),
        data@ == bytes@,
        call_ensures(LucentRelay::load_state, (b, data), r),
    ensures
        r is Ok,
        final(b).relay_handle.0.name@ == a.relay_handle.0.name@,
        final(b).relay_handle.0.target@ == a.relay_handle.0.target@,
        final(b).claimed_slot == old(b).claimed_slot,
        final(b).cached_name == old(b).cached_name,
{
    let f = a.relay_handle.0.fields();
    assert forall|i: int| 0 <= i < f.len() implies fits(#[trigger] f[i]) by {}
    crate::saved_state::law_saved_texts_come_back(f);
    let g = final(b).relay_handle.0.fields();
    assert(g == f);
    assert(g[0] == f[0] && g[1] == f[1]);
}

/// A relay works with the name and the target as they are set.
pub proof fn law_a_relay_takes_over_what_is_set(l: &mut LucentRelay, u: ())
    requires
        call_ensures(LucentRelay::refresh, (l,), u),
    ensures
        final(l).cached_name@ == old(l).relay_handle.0.name@,
        final(l).cached_target@ == old(l).relay_handle.0.target@,
{
}

/// The second channel is the right one, where there are two.
pub proof fn law_the_second_channel_is_right(channels: usize, r: usize)
    requires
        call_ensures(right_channel, (channels,), r),
    ensures
        channels == 1 ==> r == 0,
        channels >= 2 ==> r == 1,
{
}

/// A message changes what it names and leaves the rest.
pub proof fn law_a_message_changes_what_it_names(
    m: &mut EditorModel,
    message: Message,
    live: Vec<String>,
    u: (),
)
    requires
        call_ensures(update, (m, message, live), u),
    ensures
        message is Tick ==> final(m).lucent_names == live,
        !(message is Tick) ==> final(m).lucent_names == old(m).lucent_names,
        message is NameChanged ==> final(m).name_input == message->NameChanged_0 && final(m).params.name@ == message->NameChanged_0@,
        !(message is NameChanged) ==> final(m).name_input == old(m).name_input && final(m).params.name == old(m).params.name,
        message is TargetSelected ==> final(m).target == message->TargetSelected_0 && final(m).params.target@ == message->TargetSelected_0@,
        !(message is TargetSelected) ==> final(m).target == old(m).target && final(m).params.target
            == old(m).params.target,
{
}

/// The status line names the Lucent that is fed: the chosen one where it is alive, else the only one
/// there is; it warns where there is none and asks where there are several.
pub proof fn law_the_status_names_what_is_fed(m: &EditorModel, r: (String, StatusTone))
    requires
        call_ensures(status, (m,), r),
    ensures
        m.lucent_names@.len() == 0 ==> r.0@ == "No Lucent found"@ && r.1 == StatusTone::Warning,
        m.target@.len() > 0 && among(m.lucent_names@, m.target@) ==> r.0@ == "→ "@ + m.target@
            && r.1 == StatusTone::Connected,
        m.lucent_names@.len() == 1 && !(m.target@.len() > 0 && among(m.lucent_names@, m.target@))
            ==> r.0@ == "→ "@ + m.lucent_names@[0]@ + " (auto)"@ && r.1 == StatusTone::Connected,
        m.lucent_names@.len() > 1 && !(m.target@.len() > 0 && among(m.lucent_names@, m.target@))
            ==> r.0@ == "Select a Lucent"@ && r.1 == StatusTone::Neutral,
{
    lemma_among(m.lucent_names@, m.target@);
    if m.lucent_names@.len() == 1 {
        assert(texts(m.lucent_names@)[0] == m.lucent_names@[0]@);
    }
}

/// The list shows the target as chosen, where there is one.
pub proof fn law_the_list_shows_the_target(m: &EditorModel, r: Option<String>)
    requires
        call_ensures(selected, (m,), r),
    ensures
        r is Some <==> m.target@.len() > 0,
        r is Some ==> r->0@ == m.target@,
{
}

/// A look at the Lucents: without a target the only one becomes it, and a target that is gone is
/// dropped; any other stays.  The options are the broadcast and the Lucents in their order.
pub proof fn law_a_look_keeps_the_target_alive(
    p: &mut RelayPanel,
    hub: bool,
    list: Vec<String>,
    found: bool,
    now: u64,
    r: RelayTick,
    i: int,
)
    requires
        call_ensures(RelayPanel::tick, (p, hub, list, found, now), r),
        0 <= i < list@.len(),
    ensures
        old(p).target@.len() == 0 && list@.len() == 1 ==> final(p).target@ == list@[0]@
            && r.retargeted,
        old(p).target@.len() == 0 && list@.len() != 1 ==> final(p).target@.len() == 0
            && !r.retargeted,
        old(p).target@.len() > 0 && among(list@, old(p).target@) ==> final(p).target@ == old(p).target@ && !r.retargeted,
        old(p).target@.len() > 0 && !among(list@, old(p).target@) ==> final(p).target@.len() == 0
            && r.retargeted,
        r.retargeted ==> final(p).selected_target@ == final(p).target@ && r.changed,
        !r.retargeted ==> final(p).selected_target@ == old(p).selected_target@,
        final(p).target_options@.len() == list@.len() + 1,
        final(p).target_options@[0]@ == "(broadcast)"@,
        final(p).target_options@[i + 1]@ == list@[i]@,
        final(p).telemetry.lucent_list == list,
        final(p).telemetry.now_ms == now,
        old(p).selected_index != final(p).selected_index ==> r.changed,
        old(p).telemetry.connected != final(p).telemetry.connected ==> r.changed,
        old(p).telemetry.now_ms != now ==> r.changed,
        old(p).telemetry.lucent_list@.len() != list@.len() ==> r.changed,
{
    lemma_among(list@, old(p).target@);
    assert(texts(list@)[0] == list@[0]@);
    assert(texts(list@)[i] == list@[i]@);
    let options = texts(final(p).target_options@);
    assert(options.len() == final(p).target_options@.len());
    assert(options == seq!["(broadcast)"@] + texts(list@));
    assert(options[0] == final(p).target_options@[0]@);
    assert(options[i + 1] == final(p).target_options@[i + 1]@);
    assert(texts(old(p).telemetry.lucent_list@).len() == old(p).telemetry.lucent_list@.len());
}

/// A relay is connected through a hub alone: to its target where that is there, and without a
/// target where any Lucent is.  The time of the last connection is that of the last look that found
/// one.
pub proof fn law_a_relay_is_connected_through_the_hub(
    p: &mut RelayPanel,
    hub: bool,
    list: Vec<String>,
    found: bool,
    now: u64,
    r: RelayTick,
)
    requires
        call_ensures(RelayPanel::tick, (p, hub, list, found, now), r),
    ensures
        !hub ==> !final(p).telemetry.connected,
        hub && old(p).target@.len() == 0 ==> final(p).telemetry.connected == (list@.len() > 0),
        hub && old(p).target@.len() > 0 ==> final(p).telemetry.connected == found,
        final(p).telemetry.connected ==> final(p).telemetry.last_connected_ms == Some(now),
        !final(p).telemetry.connected ==> final(p).telemetry.last_connected_ms == old(p).telemetry.last_connected_ms,
{
    lemma_among(list@, old(p).target@);
}

/// The option shown as chosen is the one of the target, and the broadcast where the target is not
/// listed.
pub proof fn law_the_chosen_option_is_shown(
    p: &mut RelayPanel,
    hub: bool,
    list: Vec<String>,
    found: bool,
    now: u64,
    r: RelayTick,
)
    requires
        call_ensures(RelayPanel::tick, (p, hub, list, found, now), r),
    ensures
        final(p).selected_target@.len() == 0 || !among(list@, final(p).selected_target@) ==> final(p).selected_index == 0,
        final(p).selected_target@.len() > 0 && among(list@, final(p).selected_target@) ==> 0 < final(p).selected_index <= list@.len() && list@[final(p).selected_index - 1]@ == final(p).selected_target@,
{
    let t = final(p).selected_target@;
    lemma_among(list@, t);
    lemma_first_place(texts(list@), t, texts(list@).len());
    if among(list@, t) {
        let k = choose|k: int| 0 <= k < texts(list@).len() && texts(list@)[k] == t;
        assert(first_place(texts(list@), t, texts(list@).len()) is Some);
    }
}

/// The first option is the broadcast, without a target; any other sets its name.
pub proof fn law_an_option_sets_the_target(p: &mut RelayPanel, index: usize, name: &String, u: ())
    requires
        call_ensures(RelayPanel::choose_option, (p, index, name), u),
    ensures
        final(p).selected_index == index,
        index == 0 ==> final(p).target@.len() == 0,
        index > 0 ==> final(p).target@ == name@,
        final(p).selected_target@ == final(p).target@,
{
}

/// The connection is told by its state, and by how long ago it was lost: below a second in
/// milliseconds, else in seconds.
pub proof fn law_a_lost_connection_tells_its_time(t: &RelayTelemetry, seconds: &str, r: String)
    requires
        call_ensures(connection_text, (t, seconds), r),
    ensures
        t.connected ==> r@ == "● Connected"@,
        !t.connected && t.last_connected_ms is None ==> r@ == "● No Lucent"@,
        !t.connected && t.last_connected_ms is Some && t.now_ms - t.last_connected_ms->0 >= 1000
            ==> r@ == "● No Lucent (last seen "@ + seconds@ + " s ago)"@,
        !t.connected && t.last_connected_ms is Some && 0 <= t.now_ms - t.last_connected_ms->0 < 1000
            ==> r@ == "● No Lucent ("@ + decimal((t.now_ms - t.last_connected_ms->0) as nat)
            + " ms ago)"@,
        !t.connected && t.last_connected_ms is Some && t.now_ms < t.last_connected_ms->0 ==> r@
            == "● No Lucent ("@ + decimal(0) + " ms ago)"@,
{
}

proof fn lemma_in_slot(relays: Seq<relay_state::RelayData>, slot: u8, n: nat)
    requires
        n <= relays.len(),
    ensures
        match relay_state::first_in_slot(relays, slot, n) {
            Some(k) => {
                &&& 0 <= k < n
                &&& relays[k].slot == slot
                &&& forall|i: int| 0 <= i < k ==> (#[trigger] relays[i]).slot != slot
            },
            None => forall|i: int| 0 <= i < n ==> (#[trigger] relays[i]).slot != slot,
        },
    decreases n,
{
    if n > 0 {
        lemma_in_slot(relays, slot, (n - 1) as nat);
    }
}

/// The relay found in a slot is the first one there.
pub proof fn law_a_slot_finds_its_first_relay(
    s: &relay_state::LucentUiState,
    slot: u8,
    r: Option<usize>,
    i: int,
)
    requires
        call_ensures(relay_state::LucentUiState::find_slot, (s, slot), r),
        0 <= i < s.relays@.len(),
    ensures
        r is Some ==> r->0 < s.relays@.len() && s.relays@[r->0 as int].slot == slot,
        r is Some && i < r->0 ==> s.relays@[i].slot != slot,
        r is None ==> s.relays@[i].slot != slot,
{
    lemma_in_slot(s.relays@, slot, s.relays@.len());
}

/// Every feed becomes a relay with its slot, label and number of bins; a relay `k` that was the
/// first in the slot hands on its switch, and its spectrum is blended bin by bin where the bins
/// agree.
pub proof fn law_feeds_become_relays<B: Fn(Level, Level) -> Level>(
    s: &mut relay_state::LucentUiState,
    feeds: Vec<(u8, String, Vec<Level>)>,
    blend: B,
    u: (),
    i: int,
    k: int,
    j: int,
)
    requires
        call_ensures(relay_state::LucentUiState::sync_relays::<B>, (s, feeds, blend), u),
        0 <= i < feeds@.len(),
        0 <= k < old(s).relays@.len(),
        old(s).relays@[k].slot == feeds@[i].0,
        forall|a: int| 0 <= a < k ==> (#[trigger] old(s).relays@[a]).slot != feeds@[i].0,
        0 <= j < feeds@[i].2@.len(),
    ensures
        final(s).relays@.len() == feeds@.len(),
        final(s).relays@[i].slot == feeds@[i].0,
        final(s).relays@[i].name@ == feeds@[i].1@,
        final(s).relays@[i].active == old(s).relays@[k].active,
        final(s).relays@[i].spectrum@.len() == feeds@[i].2@.len(),
        old(s).relays@[k].spectrum@.len() == feeds@[i].2@.len() ==> call_ensures(
            blend,
            (old(s).relays@[k].spectrum@[j], feeds@[i].2@[j]),
            final(s).relays@[i].spectrum@[j],
        ),
        old(s).relays@[k].spectrum@.len() != feeds@[i].2@.len() ==> final(s).relays@[i].spectrum@[j]
            == feeds@[i].2@[j],
        final(s).own_spectrum == old(s).own_spectrum,
{
    lemma_in_slot(old(s).relays@, feeds@[i].0, old(s).relays@.len());
    assert(relay_state::fed(blend, old(s).relays@, feeds@[i], final(s).relays@[i]));
}

proof fn lemma_slot_active(relays: Seq<relay_state::RelayData>, slot: u32, n: nat)
    requires
        n <= relays.len(),
    ensures
        relay_state::slot_active(relays, slot, n) <==> exists|i: int|
            0 <= i < n && (#[trigger] relays[i]).slot == slot && relays[i].active,
    decreases n,
{
    if n > 0 {
        lemma_slot_active(relays, slot, (n - 1) as nat);
        if relays[n - 1].slot == slot && relays[n - 1].active {
            assert(relays[n - 1].slot == slot);
        }
    }
}

/// A bit of the mask is set where a relay in the slot of its number is switched on.
pub proof fn law_the_mask_has_a_bit_for_every_active_slot(
    s: &relay_state::LucentUiState,
    mask: u32,
    slot: u32,
)
    requires
        forall|i: int| 0 <= i < s.relays@.len() ==> (#[trigger] s.relays@[i]).slot < 32,
        call_ensures(relay_state::LucentUiState::relay_active_mask, (s,), mask),
        slot < 32,
    ensures
        (mask >> slot) & 1 == 1 <==> exists|i: int|
            0 <= i < s.relays@.len() && (#[trigger] s.relays@[i]).slot == slot
                && s.relays@[i].active,
{
    lemma_slot_active(s.relays@, slot, s.relays@.len());
    assert(relay_state::bit(mask, slot) <==> relay_state::slot_active(
        s.relays@,
        slot,
        s.relays@.len(),
    ));
}

proof fn lemma_named(relays: Seq<named_relays::RelayData>, name: Seq<char>, n: nat)
    requires
        n <= relays.len(),
    ensures
        match named_relays::first_named(relays, name, n) {
            Some(k) => {
                &&& 0 <= k < n
                &&& relays[k].name@ == name
                &&& forall|i: int| 0 <= i < k ==> (#[trigger] relays[i]).name@ != name
            },
            None => forall|i: int| 0 <= i < n ==> (#[trigger] relays[i]).name@ != name,
        },
    decreases n,
{
    if n > 0 {
        lemma_named(relays, name, (n - 1) as nat);
    }
}

/// The same where relays are told apart by their labels.
pub proof fn law_feeds_become_named_relays<B: Fn(Level, Level) -> Level>(
    s: &mut named_relays::LucentUiState,
    feeds: Vec<(String, Vec<Level>)>,
    blend: B,
    u: (),
    i: int,
    k: int,
    j: int,
)
    requires
        call_ensures(named_relays::LucentUiState::sync_relays::<B>, (s, feeds, blend), u),
        0 <= i < feeds@.len(),
        0 <= k < old(s).relays@.len(),
        old(s).relays@[k].name@ == feeds@[i].0@,
        forall|a: int| 0 <= a < k ==> (#[trigger] old(s).relays@[a]).name@ != feeds@[i].0@,
        0 <= j < feeds@[i].1@.len(),
    ensures
        final(s).relays@.len() == feeds@.len(),
        final(s).relays@[i].name@ == feeds@[i].0@,
        final(s).relays@[i].active == old(s).relays@[k].active,
        final(s).relays@[i].spectrum@.len() == feeds@[i].1@.len(),
        old(s).relays@[k].spectrum@.len() == feeds@[i].1@.len() ==> call_ensures(
            blend,
            (old(s).relays@[k].spectrum@[j], feeds@[i].1@[j]),
            final(s).relays@[i].spectrum@[j],
        ),
        old(s).relays@[k].spectrum@.len() != feeds@[i].1@.len() ==> final(s).relays@[i].spectrum@[j]
            == feeds@[i].1@[j],
        final(s).own_spectrum == old(s).own_spectrum,
{
    lemma_named(old(s).relays@, feeds@[i].0@, old(s).relays@.len());
    assert(named_relays::fed(blend, old(s).relays@, feeds@[i], final(s).relays@[i]));
}

/// A feed that no relay had the label of is switched on and shown as it came.
pub proof fn law_unknown_feeds_are_on<B: Fn(Level, Level) -> Level>(
    s: &mut named_relays::LucentUiState,
    feeds: Vec<(String, Vec<Level>)>,
    t: &mut relay_state::LucentUiState,
    slots: Vec<(u8, String, Vec<Level>)>,
    blend: B,
    u: (),
    i: int,
)
    requires
        call_ensures(named_relays::LucentUiState::sync_relays::<B>, (s, feeds, blend), u),
        call_ensures(relay_state::LucentUiState::sync_relays::<B>, (t, slots, blend), u),
        0 <= i < feeds@.len(),
        0 <= i < slots@.len(),
    ensures
        (forall|a: int|
            0 <= a < old(s).relays@.len() ==> (#[trigger] old(s).relays@[a]).name@ != feeds@[i].0@)
            ==> final(s).relays@[i].active && final(s).relays@[i].spectrum@ == feeds@[i].1@,
        (forall|a: int|
            0 <= a < old(t).relays@.len() ==> (#[trigger] old(t).relays@[a]).slot != slots@[i].0)
            ==> final(t).relays@[i].active && final(t).relays@[i].spectrum@ == slots@[i].2@,
{
    lemma_named(old(s).relays@, feeds@[i].0@, old(s).relays@.len());
    lemma_in_slot(old(t).relays@, slots@[i].0, old(t).relays@.len());
    assert(named_relays::fed(blend, old(s).relays@, feeds@[i], final(s).relays@[i]));
    assert(relay_state::fed(blend, old(t).relays@, slots@[i], final(t).relays@[i]));
}

/// A switch turns one relay over and leaves the others.
pub proof fn law_a_switch_turns_one_relay(
    s: &mut named_relays::LucentUiState,
    index: usize,
    u: (),
    i: int,
)
    requires
        call_ensures(named_relays::LucentUiState::toggle_relay, (s, index), u),
        0 <= i < old(s).relays@.len(),
    ensures
        final(s).relays@.len() == old(s).relays@.len(),
        final(s).relays@[i].name == old(s).relays@[i].name,
        final(s).relays@[i].spectrum == old(s).relays@[i].spectrum,
        final(s).relays@[i].active == (old(s).relays@[i].active != (i == index)),
{
}

proof fn lemma_switched_on(relays: Seq<named_relays::RelayData>, n: nat)
    requires
        n <= relays.len(),
    ensures
        ({
            let on = named_relays::switched_on(relays, n);
            &&& forall|i: int|
                0 <= i < on.len() ==> (#[trigger] on[i]).active && exists|k: int|
                    0 <= k < n && on[i] == #[trigger] relays[k]
            &&& forall|k: int|
                0 <= k < n && (#[trigger] relays[k]).active ==> on.contains(relays[k])
        }),
    decreases n,
{
    if n > 0 {
        lemma_switched_on(relays, (n - 1) as nat);
        let before = named_relays::switched_on(relays, (n - 1) as nat);
        let on = named_relays::switched_on(relays, n);
        assert forall|i: int| 0 <= i < on.len() implies (#[trigger] on[i]).active && exists|k: int|
            0 <= k < n && on[i] == #[trigger] relays[k] by {
            if i < before.len() {
                assert(on[i] == before[i]);
                let k = choose|k: int| 0 <= k < n - 1 && before[i] == #[trigger] relays[k];
                assert(on[i] == relays[k]);
            } else {
                assert(on[i] == relays[n - 1]);
            }
        }
        assert forall|k: int| 0 <= k < n && (#[trigger] relays[k]).active implies on.contains(
            relays[k],
        ) by {
            if k < n - 1 {
                let i = choose|i: int| 0 <= i < before.len() && before[i] == relays[k];
                assert(on[i] == relays[k]);
            } else {
                assert(on.last() == relays[k]);
            }
        }
    }
}

proof fn lemma_loudest_at(relays: Seq<named_relays::RelayData>, bin: int, n: nat)
    requires
        n <= relays.len(),
        0 <= bin,
    ensures
        !named_relays::loudest_at(relays, bin, n).nan(),
        forall|k: int|
            0 <= k < n && bin < (#[trigger] relays[k]).spectrum@.len()
                ==> !relays[k].spectrum@[bin].above(named_relays::loudest_at(relays, bin, n)),
        named_relays::loudest_at(relays, bin, n).bits == 0xff80_0000 || exists|k: int|
            0 <= k < n && bin < (#[trigger] relays[k]).spectrum@.len()
                && relays[k].spectrum@[bin] == named_relays::loudest_at(relays, bin, n),
    decreases n,
{
    if n > 0 {
        lemma_loudest_at(relays, bin, (n - 1) as nat);
        let before = named_relays::loudest_at(relays, bin, (n - 1) as nat);
        let now = named_relays::loudest_at(relays, bin, n);
        if now == before {
            if now.bits != 0xff80_0000 {
                let k = choose|k: int|
                    0 <= k < n - 1 && bin < (#[trigger] relays[k]).spectrum@.len()
                        && relays[k].spectrum@[bin] == before;
                assert(relays[k].spectrum@[bin] == now);
            }
        } else {
            assert(relays[n - 1].spectrum@[bin] == now);
        }
    }
}

proof fn lemma_longest(relays: Seq<named_relays::RelayData>, n: nat)
    requires
        n <= relays.len(),
    ensures
        forall|k: int|
            0 <= k < n ==> (#[trigger] relays[k]).spectrum@.len() <= named_relays::longest(relays, n),
        named_relays::longest(relays, n) == 0 || exists|k: int|
            0 <= k < n && (#[trigger] relays[k]).spectrum@.len() == named_relays::longest(relays, n),
    decreases n,
{
    if n > 0 {
        lemma_longest(relays, (n - 1) as nat);
        let before = named_relays::longest(relays, (n - 1) as nat);
        if named_relays::longest(relays, n) == before {
            if before != 0 {
                let k = choose|k: int|
                    0 <= k < n - 1 && (#[trigger] relays[k]).spectrum@.len() == before;
                assert(relays[k].spectrum@.len() == named_relays::longest(relays, n));
            }
        } else {
            assert(relays[n - 1].spectrum@.len() == named_relays::longest(relays, n));
        }
    }
}

/// With no relay switched on the own spectrum is shown; else every bin is the loudest of the relays
/// that are switched on and reach it, and those that are switched off do not count.
pub proof fn law_the_sum_is_the_loudest_active_relay(
    s: &named_relays::LucentUiState,
    r: Vec<Level>,
    k: int,
    j: int,
)
    requires
        call_ensures(named_relays::LucentUiState::sum_active_spectra, (s,), r),
    ensures
        (forall|i: int| 0 <= i < s.relays@.len() ==> !(#[trigger] s.relays@[i]).active) ==> r@
            == s.own_spectrum@,
        0 <= k < s.relays@.len() && s.relays@[k].active && 0 <= j < s.relays@[k].spectrum@.len()
            ==> j < r@.len() && !s.relays@[k].spectrum@[j].above(r@[j]),
        0 <= k < s.relays@.len() && s.relays@[k].active && 0 <= j < r@.len() ==> r@[j].bits
            == 0xff80_0000 || exists|i: int|
            0 <= i < s.relays@.len() && (#[trigger] s.relays@[i]).active && j
                < s.relays@[i].spectrum@.len() && s.relays@[i].spectrum@[j] == r@[j],
{
    let n = s.relays@.len();
    let on = named_relays::switched_on(s.relays@, n);
    lemma_switched_on(s.relays@, n);
    lemma_longest(on, on.len());
    if 0 <= j {
        lemma_loudest_at(on, j, on.len());
    }
    if on.len() > 0 {
        assert(on[0].active);
        let i = choose|i: int| 0 <= i < n && on[0] == #[trigger] s.relays@[i];
        assert(s.relays@[i].active);
    }
    if 0 <= k < n && s.relays@[k].active {
        let a = choose|a: int| 0 <= a < on.len() && on[a] == s.relays@[k];
        assert(on[a].spectrum@.len() <= named_relays::longest(on, on.len()));
        if 0 <= j < r@.len() && r@[j].bits != 0xff80_0000 {
            let b = choose|b: int|
                0 <= b < on.len() && j < (#[trigger] on[b]).spectrum@.len() && on[b].spectrum@[j]
                    == named_relays::loudest_at(on, j, on.len());
            let i = choose|i: int| 0 <= i < n && on[b] == #[trigger] s.relays@[i];
            assert(s.relays@[i].active && s.relays@[i].spectrum@[j] == r@[j]);
        }
    }
}

/// A score is held at its bin where nothing louder is held there; the other bins stay.
pub proof fn law_a_bin_holds_its_loudest_score(
    map: &mut ScoreHold,
    bin: usize,
    score: Level,
    u: (),
    i: int,
)
    requires
        old(map).wf(),
        !score.nan(),
        call_ensures(max_hold_score, (map, bin, score), u),
        0 <= i < old(map).entries@.len(),
    ensures
        final(map).entries@[i].0 == old(map).entries@[i].0,
        old(map).entries@[i].0 != bin ==> final(map).entries@[i] == old(map).entries@[i],
        old(map).entries@[i].0 == bin ==> final(map).entries@.len() == old(map).entries@.len()
            && final(map).entries@[i].1 == (if score.above(old(map).entries@[i].1) {
            score
        } else {
            old(map).entries@[i].1
        }),
        final(map).entries@.len() > old(map).entries@.len() ==> final(map).entries@.len() == old(map).entries@.len() + 1 && final(map).entries@.last() == (bin, score),
{
    let e = old(map).entries@;
    let bins = crate::max_hold::score_bins(e);
    law_score_holds_never_fall(e, bin, score);
    lemma_place(bins, bin, bins.len());
    assert(bins[i] == e[i].0);
    match crate::max_hold::place(bins, bin, bins.len()) {
        Some(k) => {
            assert(bins[k] == e[k].0);
            if e[i].0 == bin && i != k {
                assert(bins[i] != bins[k]);
            }
        },
        None => {},
    }
}

/// The same with names: the louder score comes with its own names.
pub proof fn law_a_bin_holds_its_loudest_score_with_names(
    map: &mut NamedHold,
    bin: usize,
    score: Level,
    names: &Vec<String>,
    u: (),
    i: int,
)
    requires
        old(map).wf(),
        !score.nan(),
        call_ensures(max_hold_named, (map, bin, score, names), u),
        0 <= i < old(map).entries@.len(),
    ensures
        final(map).entries@.len() >= old(map).entries@.len(),
        final(map).entries@[i].0 == old(map).entries@[i].0,
        old(map).entries@[i].0 == bin && score.above(old(map).entries@[i].1) ==> final(map).entries@[i].1 == score && texts(final(map).entries@[i].2@) == texts(names@),
        old(map).entries@[i].0 != bin || !score.above(old(map).entries@[i].1) ==> final(map).entries@[i].1 == old(map).entries@[i].1 && texts(final(map).entries@[i].2@) == texts(
            old(map).entries@[i].2@,
        ),
{
    let e = named_peaks(old(map).entries@);
    let f = named_peaks(final(map).entries@);
    assert(e.len() == old(map).entries@.len());
    assert(f.len() == final(map).entries@.len());
    let bins = named_bins(e);
    lemma_place(bins, bin, bins.len());
    assert(bins[i] == e[i].0);
    let x = old(map).entries@[i];
    assert(e[i] == (x.0, x.1, texts(x.2@)));
    match crate::max_hold::place(bins, bin, bins.len()) {
        Some(k) => {
            assert(bins[k] == e[k].0);
            if e[i].0 == bin && i != k {
                assert(bins[i] != bins[k]);
            }
        },
        None => {},
    }
    assert(f[i].0 == e[i].0);
    let y = final(map).entries@[i];
    assert(f[i] == (y.0, y.1, texts(y.2@)));
}

} // verus!
