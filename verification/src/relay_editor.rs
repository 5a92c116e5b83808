//! The editor of Lucent Relay: its name field, its target list and its status line.

use crate::text::{
    decimal, first_place, lemma_first_place, list_find, list_has, names_equal, push_decimal,
    texts,
};
use crate::masking::copy_names;
use vstd::prelude::*;
use vstd::string::*;

verus! {

/// What the user or the frame clock tells the editor.
pub enum Message {
    Tick,
    NameChanged(String),
    TargetSelected(String),
}

/// The settings of a relay that outlive its editor.
pub struct LucentRelayParams {
    pub name: String,
    pub target: String,
}

/// The state of an open editor.
pub struct EditorModel {
    pub params: LucentRelayParams,
    /// The text of the name field.
    pub name_input: String,
    /// The chosen Lucent; empty where none is chosen.
    pub target: String,
    /// The Lucents that are alive.
    pub lucent_names: Vec<String>,
}

/// Opens the editor on the given settings.
pub fn boot(params: LucentRelayParams) -> (r: EditorModel)
    ensures
        r.params == params,
        r.name_input@ == params.name@,
        r.target@ == params.target@,
        r.lucent_names@.len() == 0,
{
    let name_input: String = params.name.clone();
    let target: String = params.target.clone();
    EditorModel { params, name_input, target, lucent_names: Vec::new() }
}

/// Handles one message; `live` lists the Lucents that are alive now.
pub fn update(model: &mut EditorModel, message: Message, live: Vec<String>)
    ensures
        match message {
            Message::Tick => {
                &&& final(model).lucent_names == live
                &&& final(model).params == old(model).params
                &&& final(model).name_input == old(model).name_input
                &&& final(model).target == old(model).target
            },
            Message::NameChanged(value) => {
                &&& final(model).name_input == value
                &&& final(model).params.name@ == value@
                &&& final(model).params.target == old(model).params.target
                &&& final(model).target == old(model).target
                &&& final(model).lucent_names == old(model).lucent_names
            },
            Message::TargetSelected(value) => {
                &&& final(model).target == value
                &&& final(model).params.target@ == value@
                &&& final(model).params.name == old(model).params.name
                &&& final(model).name_input == old(model).name_input
                &&& final(model).lucent_names == old(model).lucent_names
            },
        },
{
    match message {
        Message::Tick => {
            model.lucent_names = live;
        },
        Message::NameChanged(value) => {
            model.params.name = value.clone();
            model.name_input = value;
        },
        Message::TargetSelected(value) => {
            model.params.target = value.clone();
            model.target = value;
        },
    }
}

/// How the status line of the editor is coloured.
#[derive(Clone, Copy, Debug, PartialEq, Eq, Structural)]
pub enum StatusTone {
    Warning,
    Connected,
    Neutral,
}

/// The status line: which Lucent the relay feeds, if any.
pub open spec fn status_line(lucents: Seq<Seq<char>>, target: Seq<char>) -> (
    Seq<char>,
    StatusTone,
) {
    if lucents.len() == 0 {
        ("No Lucent found"@, StatusTone::Warning)
    } else if target.len() > 0 && lucents.contains(target) {
        ("→ "@ + target, StatusTone::Connected)
    } else if lucents.len() == 1 {
        ("→ "@ + lucents[0] + " (auto)"@, StatusTone::Connected)
    } else {
        ("Select a Lucent"@, StatusTone::Neutral)
    }
}

/// The status line of the editor.
pub fn status(model: &EditorModel) -> (r: (String, StatusTone))
    ensures
        (r.0@, r.1) == status_line(texts(model.lucent_names@), model.target@),
{
    proof {
        assert(texts(model.lucent_names@).len() == model.lucent_names@.len());
    }
    if model.lucent_names.len() == 0 {
        ("No Lucent found".to_owned(), StatusTone::Warning)
    } else if !model.target.as_str().is_empty() && list_has(&model.lucent_names, &model.target) {
        let mut s: String = "→ ".to_owned();
        s.append(model.target.as_str());
        (s, StatusTone::Connected)
    } else if model.lucent_names.len() == 1 {
        let mut s: String = "→ ".to_owned();
        s.append(model.lucent_names[0].as_str());
        s.append(" (auto)");
        (s, StatusTone::Connected)
    } else {
        ("Select a Lucent".to_owned(), StatusTone::Neutral)
    }
}

/// The Lucent that the list shows as chosen.
pub fn selected(model: &EditorModel) -> (r: Option<String>)
    ensures
        model.target@.len() == 0 ==> r is None,
        model.target@.len() > 0 ==> r is Some && r->0@ == model.target@,
{
    if model.target.as_str().is_empty() {
        None
    } else {
        Some(model.target.clone())
    }
}

/// What the panel of a relay knows of the Lucents.
pub struct RelayTelemetry {
    pub lucent_list: Vec<String>,
    pub connected: bool,
    pub last_connected_ms: Option<u64>,
    pub now_ms: u64,
}

/// What a tick of the panel leads to.
#[derive(Clone, Copy, Debug, PartialEq, Eq, Structural)]
pub struct RelayTick {
    /// Whether the target has changed and is to be made known.
    pub retargeted: bool,
    /// Whether anything that is shown has changed.
    pub changed: bool,
}

/// Whether two panels know the same of the Lucents.
pub open spec fn same_telemetry(a: RelayTelemetry, b: RelayTelemetry) -> bool {
    &&& texts(a.lucent_list@) == texts(b.lucent_list@)
    &&& a.connected == b.connected
    &&& a.last_connected_ms == b.last_connected_ms
    &&& a.now_ms == b.now_ms
}

/// The panel of a relay: its target, the list to choose from, and the connection.
pub struct RelayPanel {
    /// The target as it is saved.
    pub target: String,
    /// The target as it is shown.
    pub selected_target: String,
    pub target_options: Vec<String>,
    pub selected_index: usize,
    pub telemetry: RelayTelemetry,
}

/// The target after a look at the Lucents that are there: the only one where none is chosen,
/// none where the chosen one is gone.
pub open spec fn target_after(list: Seq<Seq<char>>, target: Seq<char>) -> Seq<char> {
    if target.len() == 0 && list.len() == 1 {
        list[0]
    } else if target.len() > 0 && !list.contains(target) {
        Seq::empty()
    } else {
        target
    }
}

/// Whether a look at the Lucents changes the target.
pub open spec fn retargets(list: Seq<Seq<char>>, target: Seq<char>) -> bool {
    (target.len() == 0 && list.len() == 1) || (target.len() > 0 && !list.contains(target))
}

/// The place of a target in the list of options, whose first entry is the broadcast.
pub open spec fn option_index(list: Seq<Seq<char>>, target: Seq<char>) -> int {
    if target.len() == 0 {
        0
    } else {
        match first_place(list, target, list.len()) {
            Some(k) => k + 1,
            None => 0,
        }
    }
}

/// Whether a relay is connected: its target is there, or any Lucent where it has none.
pub open spec fn is_connected(
    hub: bool,
    list: Seq<Seq<char>>,
    target: Seq<char>,
    target_exists: bool,
) -> bool {
    hub && if target.len() == 0 {
        list.len() > 0
    } else {
        target_exists
    }
}

impl RelayPanel {
    /// The panel of a relay with the given target.
    pub fn new(target: String) -> (r: RelayPanel)
        ensures
            r.target == target,
            r.selected_target@ == target@,
            texts(r.target_options@) == seq!["(broadcast)"@],
            r.selected_index == 0,
            r.telemetry.lucent_list@.len() == 0,
            !r.telemetry.connected,
            r.telemetry.last_connected_ms is None,
            r.telemetry.now_ms == 0,
    {
        let mut target_options: Vec<String> = Vec::new();
        target_options.push("(broadcast)".to_owned());
        proof {
            assert(texts(target_options@) =~= seq!["(broadcast)"@]);
        }
        let selected_target: String = target.clone();
        RelayPanel {
            target,
            selected_target,
            target_options,
            selected_index: 0,
            telemetry: RelayTelemetry {
                lucent_list: Vec::new(),
                connected: false,
                last_connected_ms: None,
                now_ms: 0,
            },
        }
    }

    /// Whether another list, another choice in it or other knowledge of the Lucents is shown.
    pub open spec fn shows_other(before: RelayPanel, after: RelayPanel) -> bool {
        ||| texts(after.target_options@) != texts(before.target_options@)
        ||| after.selected_index != before.selected_index
        ||| !same_telemetry(after.telemetry, before.telemetry)
    }

    /// Takes a look at the Lucents that are there.
    ///
    /// `hub` tells whether there is a hub, `lucent_list` names the Lucents it knows, and
    /// `target_exists` tells whether it knows the target.
    pub fn tick(
        &mut self,
        hub: bool,
        lucent_list: Vec<String>,
        target_exists: bool,
        now_ms: u64,
    ) -> (r: RelayTick)
        ensures
            r.changed == (r.retargeted || Self::shows_other(*old(self), *final(self))),
            r.retargeted == retargets(texts(lucent_list@), old(self).target@),
            final(self).target@ == target_after(texts(lucent_list@), old(self).target@),
            final(self).selected_target@ == (if r.retargeted {
                final(self).target@
            } else {
                old(self).selected_target@
            }),
            texts(final(self).target_options@) == seq!["(broadcast)"@] + texts(lucent_list@),
            final(self).selected_index == option_index(
                texts(lucent_list@),
                final(self).selected_target@,
            ),
            final(self).telemetry.lucent_list == lucent_list,
            final(self).telemetry.now_ms == now_ms,
            final(self).telemetry.connected == is_connected(
                hub,
                texts(lucent_list@),
                old(self).target@,
                target_exists,
            ),
            final(self).telemetry.last_connected_ms == (if final(self).telemetry.connected {
                Some(now_ms)
            } else {
                old(self).telemetry.last_connected_ms
            }),
    {
        let ghost list = texts(lucent_list@);
        proof {
            assert(list.len() == lucent_list.len());
        }
        let empty: bool = self.target.as_str().is_empty();
        let connected: bool = hub && if empty {
            lucent_list.len() > 0
        } else {
            target_exists
        };
        let mut retargeted: bool = false;
        if empty && lucent_list.len() == 1 {
            self.target = lucent_list[0].clone();
            self.selected_target = lucent_list[0].clone();
            retargeted = true;
        } else if !empty && !list_has(&lucent_list, &self.target) {
            self.target = String::new();
            self.selected_target = String::new();
            retargeted = true;
        }
        let mut options: Vec<String> = Vec::new();
        options.push("(broadcast)".to_owned());
        let mut names: Vec<String> = copy_names(&lucent_list);
        options.append(&mut names);
        proof {
            assert(texts(options@) =~= seq!["(broadcast)"@] + list);
        }
        let mut changed: bool = retargeted || !names_equal(&options, &self.target_options);
        self.target_options = options;
        let index: usize = if self.selected_target.as_str().is_empty() {
            0
        } else {
            match list_find(&lucent_list, &self.selected_target) {
                Some(i) => i + 1,
                None => 0,
            }
        };
        if self.selected_index != index {
            self.selected_index = index;
            changed = true;
        }
        let last_connected_ms: Option<u64> = if connected {
            Some(now_ms)
        } else {
            self.telemetry.last_connected_ms
        };
        let same: bool = names_equal(&lucent_list, &self.telemetry.lucent_list)
            && self.telemetry.now_ms == now_ms && self.telemetry.connected == connected
            && last_connected_ms == self.telemetry.last_connected_ms;
        self.telemetry = RelayTelemetry { lucent_list, connected, last_connected_ms, now_ms };
        RelayTick { retargeted, changed: changed || !same }
    }

    /// Chooses the option at a place: the first one is the broadcast, without a target.
    pub fn choose_option(&mut self, index: usize, name: &String)
        ensures
            final(self).selected_index == index,
            final(self).target@ == (if index == 0 {
                Seq::empty()
            } else {
                name@
            }),
            final(self).selected_target@ == final(self).target@,
            final(self).target_options == old(self).target_options,
            final(self).telemetry == old(self).telemetry,
    {
        self.selected_index = index;
        if index == 0 {
            self.target = String::new();
            self.selected_target = String::new();
        } else {
            self.target = name.clone();
            self.selected_target = name.clone();
        }
    }

    /// The option that is shown as chosen.
    pub fn chosen_option(&self) -> (r: String)
        ensures
            r@ == (if self.selected_index < self.target_options@.len() {
                self.target_options@[self.selected_index as int]@
            } else {
                "(broadcast)"@
            }),
    {
        if self.selected_index < self.target_options.len() {
            self.target_options[self.selected_index].clone()
        } else {
            "(broadcast)".to_owned()
        }
    }
}

/// How long ago a relay was connected last, in milliseconds.
pub open spec fn elapsed(now_ms: u64, last_ms: u64) -> int {
    if now_ms < last_ms {
        0
    } else {
        now_ms - last_ms
    }
}

/// The text of the connection; `seconds` is the time since the last one in seconds.
pub open spec fn connection_line(
    connected: bool,
    last_connected_ms: Option<u64>,
    now_ms: u64,
    seconds: Seq<char>,
) -> Seq<char> {
    if connected {
        "● Connected"@
    } else {
        match last_connected_ms {
            Some(last) => if elapsed(now_ms, last) < 1000 {
                "● No Lucent ("@ + decimal(elapsed(now_ms, last) as nat) + " ms ago)"@
            } else {
                "● No Lucent (last seen "@ + seconds + " s ago)"@
            },
            None => "● No Lucent"@,
        }
    }
}

/// The text of the connection; `seconds` is the time since the last one in seconds.
pub fn connection_text(t: &RelayTelemetry, seconds: &str) -> (r: String)
    ensures
        r@ == connection_line(t.connected, t.last_connected_ms, t.now_ms, seconds@),
{
    if t.connected {
        return "● Connected".to_owned();
    }
    match t.last_connected_ms {
        Some(last) => {
            let ago: u64 = if t.now_ms < last {
                0
            } else {
                t.now_ms - last
            };
            if ago < 1000 {
                let mut s: String = "● No Lucent (".to_owned();
                push_decimal(&mut s, ago);
                s.append(" ms ago)");
                s
            } else {
                let mut s: String = "● No Lucent (last seen ".to_owned();
                s.append(seconds);
                s.append(" s ago)");
                s
            }
        },
        None => "● No Lucent".to_owned(),
    }
}

/// After a look at the Lucents the target is one of them, or there is none.
pub proof fn law_target_is_alive(list: Seq<Seq<char>>, target: Seq<char>)
    ensures
        target_after(list, target).len() > 0 ==> list.contains(target_after(list, target)),
{
    if target.len() == 0 && list.len() == 1 {
        assert(list.contains(list[0]));
    }
}

/// The option shown as chosen is the target, or the broadcast where there is none.
pub proof fn law_chosen_option_is_the_target(list: Seq<Seq<char>>, target: Seq<char>)
    requires
        target.len() > 0 ==> list.contains(target),
    ensures
        ({
            let options = seq!["(broadcast)"@] + list;
            let index = option_index(list, target);
            &&& 0 <= index < options.len()
            &&& options[index] == if target.len() == 0 {
                "(broadcast)"@
            } else {
                target
            }
        }),
{
    lemma_first_place(list, target, list.len());
    if target.len() > 0 {
        let k = choose|k: int| 0 <= k < list.len() && list[k] == target;
        assert(first_place(list, target, list.len()) is Some);
    }
}

} // verus!
