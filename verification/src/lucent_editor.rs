//! The editor of Lucent: its state, its messages and what it shows.

use crate::hold::{PeakHolds, HOLD_START_BITS};
use crate::host::{automated, push_edit, Edit, ParamValue};
use crate::level::{Level, HEARD_BITS};
use crate::masking::{bins_above, collect_above};
use crate::mode::{mode_after, next_mode};
use crate::named_relays::{fed, switched_on, LucentUiState, RelayData};
use crate::registry::copy_peaks;
use crate::relay_state::copy_levels;
use crate::resonance::{rank_peaks, ranked};
use crate::text::{join, join_texts, texts};
use crate::vault::{opt_text, path_of, path_or_empty, text_or_empty, vault_path_of};
use vstd::prelude::*;
use vstd::string::*;

verus! {

/// How many ticks the snapshot button pulses.
pub const SNAP_BLINK_TICKS: u32 = 72;

/// How many relays have a button.
pub const MAX_VISIBLE_RELAYS: usize = 6;

/// How many colours the curves of relays have.
pub const RELAY_COLORS: usize = 6;

/// How many findings a summary lists.
pub const SUMMARY_LINES: usize = 3;

/// What the user or the frame clock tells the editor.
pub enum Message {
    Tick,
    RelayToggled(usize),
    SnapPressed,
    CycleMode,
    LucentNameChanged(String),
    SetupToggled,
    VaultPathChanged(String),
    SaveVaultPath,
    ResonanceToggled,
    MaskingToggled,
    ResetPeak,
    ResetAll,
}

/// What the meters show.
#[derive(Clone, Copy, Debug, PartialEq, Eq, Structural)]
pub struct Meters {
    pub output_peak: Level,
    pub peak_l: Level,
    pub peak_r: Level,
    pub holds: PeakHolds,
    pub phase_correlation: Level,
    pub balance: Level,
}

/// The settings of Lucent.
pub struct LucentParams {
    pub analyze_mode: i64,
    pub name: String,
}

/// What the editor asks of the audio side.
#[derive(Clone, Copy, Debug, PartialEq, Eq, Structural)]
pub struct Requests {
    pub snap_active: bool,
    pub reset_peak: bool,
    /// The holds as the editor has set them.
    pub holds: PeakHolds,
}

/// The state of an open editor.
pub struct LucentEditor {
    pub params: LucentParams,
    pub requests: Requests,
    pub ui_state: LucentUiState,
    pub resonance_cache: Vec<(usize, Level)>,
    pub masking_cache: Vec<Level>,
    pub show_resonance: bool,
    pub show_masking: bool,
    /// How many ticks the snapshot button still pulses.
    pub snap_blink: u32,
    pub vault_path: Option<String>,
    pub show_setup: bool,
    pub vault_path_input: String,
    pub meters: Meters,
}

/// What a tick brings.
pub struct TickInput {
    pub own_spectrum: Vec<Level>,
    pub resonance: Vec<(usize, Level)>,
    pub masking: Vec<Level>,
    pub feeds: Vec<(String, Vec<Level>)>,
    pub meters: Meters,
}

/// The level that meters start at.
pub open spec fn meter_start() -> Level {
    Level { bits: crate::level::SILENCE_BITS }
}

/// Holds that start again.
pub open spec fn fresh_holds() -> PeakHolds {
    PeakHolds {
        value: Level { bits: HOLD_START_BITS },
        left: Level { bits: HOLD_START_BITS },
        right: Level { bits: HOLD_START_BITS },
    }
}

/// What a tick does to the editor.
pub open spec fn ticked<B: Fn(Level, Level) -> Level>(
    blend: B,
    before: LucentEditor,
    after: LucentEditor,
    input: TickInput,
) -> bool {
    &&& after == (LucentEditor {
        ui_state: after.ui_state,
        resonance_cache: input.resonance,
        masking_cache: input.masking,
        meters: input.meters,
        snap_blink: if before.snap_blink > 0 {
            (before.snap_blink - 1) as u32
        } else {
            0
        },
        ..before
    })
    &&& after.ui_state.own_spectrum == input.own_spectrum
    &&& after.ui_state.name == before.ui_state.name
    &&& if before.params.analyze_mode == 0 {
        after.ui_state.relays@.len() == 0
    } else {
        &&& after.ui_state.relays@.len() == input.feeds@.len()
        &&& forall|i: int|
            0 <= i < input.feeds@.len() ==> fed(
                blend,
                before.ui_state.relays@,
                input.feeds@[i],
                #[trigger] after.ui_state.relays@[i],
            )
    }
}

/// What a message does to the editor.
pub open spec fn updated<B: Fn(Level, Level) -> Level>(
    blend: B,
    before: LucentEditor,
    after: LucentEditor,
    message: Message,
    input: TickInput,
) -> bool {
    match message {
        Message::Tick => ticked(blend, before, after, input),
        Message::RelayToggled(index) => {
            &&& after == (LucentEditor { ui_state: after.ui_state, ..before })
            &&& after.ui_state.own_spectrum == before.ui_state.own_spectrum
            &&& after.ui_state.name == before.ui_state.name
            &&& after.ui_state.relays@ == if index < before.ui_state.relays@.len() {
                before.ui_state.relays@.update(
                    index as int,
                    RelayData {
                        active: !before.ui_state.relays@[index as int].active,
                        ..before.ui_state.relays@[index as int]
                    },
                )
            } else {
                before.ui_state.relays@
            }
        },
        Message::SnapPressed => after == (LucentEditor {
            snap_blink: SNAP_BLINK_TICKS,
            requests: Requests { snap_active: true, ..before.requests },
            ..before
        }),
        Message::CycleMode => after == (LucentEditor {
            params: LucentParams {
                analyze_mode: mode_after(before.params.analyze_mode),
                ..before.params
            },
            ..before
        }),
        Message::LucentNameChanged(name) => {
            &&& after.params.name@ == name@
            &&& after.ui_state.name == name
            &&& after == (LucentEditor {
                params: LucentParams { name: after.params.name, ..before.params },
                ui_state: LucentUiState { name, ..before.ui_state },
                ..before
            })
        },
        Message::SetupToggled => {
            &&& after.vault_path_input@ == if after.show_setup {
                text_or_empty(before.vault_path)
            } else {
                before.vault_path_input@
            }
            &&& after == (LucentEditor {
                show_setup: !before.show_setup,
                vault_path_input: after.vault_path_input,
                ..before
            })
        },
        Message::VaultPathChanged(path) => after == (LucentEditor {
            vault_path_input: path,
            ..before
        }),
        Message::SaveVaultPath => {
            &&& opt_text(after.vault_path) == path_of(before.vault_path_input@)
            &&& after == (LucentEditor {
                vault_path: after.vault_path,
                show_setup: false,
                ..before
            })
        },
        Message::ResonanceToggled => after == (LucentEditor {
            show_resonance: !before.show_resonance,
            ..before
        }),
        Message::MaskingToggled => after == (LucentEditor {
            show_masking: !before.show_masking,
            ..before
        }),
        Message::ResetPeak => after == (LucentEditor {
            requests: Requests { reset_peak: true, holds: fresh_holds(), ..before.requests },
            ..before
        }),
        Message::ResetAll => after == (LucentEditor {
            requests: Requests { reset_peak: true, holds: fresh_holds(), ..before.requests },
            ..before
        }),
    }
}

/// A parameter that the editor changes.
#[derive(Clone, Copy, Debug, PartialEq, Eq, Structural)]
pub enum LucentParam {
    AnalyzeMode,
}

/// What a message asks for beside the state of the editor.
pub struct Effects {
    /// The calls to the host.
    pub edits: Vec<Edit<LucentParam>>,
    /// The folder has to be saved.
    pub save_path: bool,
}

/// The calls to the host that a message makes: the mode is set between the begin and the end of one
/// change, and nothing else is.
pub open spec fn asked_edits(before: LucentEditor, message: Message) -> Seq<Edit<LucentParam>> {
    if message is CycleMode {
        automated(
            LucentParam::AnalyzeMode,
            ParamValue::Choice(mode_after(before.params.analyze_mode) as i32),
        )
    } else {
        Seq::empty()
    }
}

/// Three times the mode button visits all modes, each in one whole change, and comes back to the
/// first one.
pub proof fn law_three_mode_changes_come_back<B: Fn(Level, Level) -> Level>(
    blend: B,
    first: LucentEditor,
    second: LucentEditor,
    third: LucentEditor,
    last: LucentEditor,
    input: TickInput,
)
    requires
        0 <= first.params.analyze_mode <= 2,
        updated(blend, first, second, Message::CycleMode, input),
        updated(blend, second, third, Message::CycleMode, input),
        updated(blend, third, last, Message::CycleMode, input),
    ensures
        last == first,
        first.params.analyze_mode != second.params.analyze_mode,
        second.params.analyze_mode != third.params.analyze_mode,
        third.params.analyze_mode != first.params.analyze_mode,
        asked_edits(first, Message::CycleMode) == seq![
            Edit::Begin(LucentParam::AnalyzeMode),
            Edit::Change(
                LucentParam::AnalyzeMode,
                ParamValue::Choice(second.params.analyze_mode as i32),
            ),
            Edit::End(LucentParam::AnalyzeMode),
        ],
{
}

impl LucentEditor {
    /// Opens the editor on the given settings.
    pub fn boot(params: LucentParams, vault_path: Option<String>) -> (r: LucentEditor)
        ensures
            r.params == params,
            r.vault_path == vault_path,
            r.vault_path_input@ == text_or_empty(vault_path),
            r.ui_state.name@ == (if params.name@.len() > 0 {
                params.name@
            } else {
                "Lucent"@
            }),
            r.ui_state.relays@.len() == 0,
            r.ui_state.own_spectrum@.len() == 0,
            r.resonance_cache@.len() == 0,
            r.masking_cache@.len() == 0,
            !r.show_resonance,
            !r.show_masking,
            !r.show_setup,
            r.snap_blink == 0,
            r.requests == (Requests {
                snap_active: false,
                reset_peak: false,
                holds: fresh_holds(),
            }),
            r.meters.output_peak == meter_start(),
            r.meters.peak_l == meter_start(),
            r.meters.peak_r == meter_start(),
            r.meters.holds == (PeakHolds {
                value: meter_start(),
                left: meter_start(),
                right: meter_start(),
            }),
            r.meters.phase_correlation == (Level { bits: 0x3f80_0000 }),
            r.meters.balance == (Level { bits: 0 }),
    {
        let mut ui_state: LucentUiState = LucentUiState::new();
        if !params.name.as_str().is_empty() {
            ui_state.name = params.name.clone();
        }
        let start: Level = Level::silence();
        let vault_path_input: String = path_or_empty(&vault_path);
        LucentEditor {
            params,
            requests: Requests {
                snap_active: false,
                reset_peak: false,
                holds: PeakHolds::new(Level { bits: HOLD_START_BITS }),
            },
            ui_state,
            resonance_cache: Vec::new(),
            masking_cache: Vec::new(),
            show_resonance: false,
            show_masking: false,
            snap_blink: 0,
            vault_path,
            show_setup: false,
            vault_path_input,
            meters: Meters {
                output_peak: start,
                peak_l: start,
                peak_r: start,
                holds: PeakHolds::new(start),
                phase_correlation: Level { bits: 0x3f80_0000 },
                balance: Level { bits: 0 },
            },
        }
    }

    /// Handles one message; `input` is what a tick brings.
    pub fn update<B: Fn(Level, Level) -> Level>(
        &mut self,
        message: Message,
        input: TickInput,
        blend: B,
    ) -> (r: Effects)
        requires
            forall|p: Level, s: Level| call_requires(blend, (p, s)),
        ensures
            updated(blend, *old(self), *final(self), message, input),
            r.edits@ == asked_edits(*old(self), message),
            r.save_path == (message is SaveVaultPath),
    {
        let mut edits: Vec<Edit<LucentParam>> = Vec::new();
        if let Message::CycleMode = &message {
            let mode: i64 = next_mode(self.params.analyze_mode);
            push_edit(&mut edits, LucentParam::AnalyzeMode, ParamValue::Choice(mode as i32));
        }
        proof {
            assert(edits@ =~= asked_edits(*old(self), message));
        }
        let save_path: bool = self.take_in(message, input, blend);
        Effects { edits, save_path }
    }

    /// Takes in a message; true where the folder has to be saved.
    fn take_in<B: Fn(Level, Level) -> Level>(
        &mut self,
        message: Message,
        input: TickInput,
        blend: B,
    ) -> (save_path: bool)
        requires
            forall|p: Level, s: Level| call_requires(blend, (p, s)),
        ensures
            updated(blend, *old(self), *final(self), message, input),
            save_path == (message is SaveVaultPath),
    {
        match message {
            Message::Tick => {
                self.ui_state.own_spectrum = input.own_spectrum;
                self.resonance_cache = input.resonance;
                self.masking_cache = input.masking;
                if self.params.analyze_mode != 0 {
                    self.ui_state.sync_relays(input.feeds, blend);
                } else {
                    self.ui_state.clear_relays();
                }
                self.meters = input.meters;
                if self.snap_blink > 0 {
                    self.snap_blink = self.snap_blink - 1;
                }
                false
            },
            Message::RelayToggled(index) => {
                self.ui_state.toggle_relay(index);
                false
            },
            Message::SnapPressed => {
                self.requests.snap_active = true;
                self.snap_blink = SNAP_BLINK_TICKS;
                false
            },
            Message::CycleMode => {
                self.params.analyze_mode = next_mode(self.params.analyze_mode);
                false
            },
            Message::LucentNameChanged(name) => {
                self.params.name = name.clone();
                self.ui_state.name = name;
                false
            },
            Message::SetupToggled => {
                self.show_setup = !self.show_setup;
                if self.show_setup {
                    self.vault_path_input = path_or_empty(&self.vault_path);
                }
                false
            },
            Message::VaultPathChanged(path) => {
                self.vault_path_input = path;
                false
            },
            Message::SaveVaultPath => {
                self.vault_path = vault_path_of(&self.vault_path_input);
                self.show_setup = false;
                true
            },
            Message::ResonanceToggled => {
                self.show_resonance = !self.show_resonance;
                false
            },
            Message::MaskingToggled => {
                self.show_masking = !self.show_masking;
                false
            },
            Message::ResetPeak => {
                self.requests.reset_peak = true;
                self.requests.holds = PeakHolds::new(Level { bits: HOLD_START_BITS });
                false
            },
            Message::ResetAll => {
                self.requests.reset_peak = true;
                self.requests.holds = PeakHolds::new(Level { bits: HOLD_START_BITS });
                false
            },
        }
    }
}

/// A curve of the spectrum view.
pub struct Curve {
    pub spectrum: Vec<Level>,
    /// Which colour of the relays it has; `None` for the own signal.
    pub color: Option<usize>,
}

/// What stands above the spectrum view.
#[derive(Clone, Copy, Debug, PartialEq, Eq, Structural)]
pub enum RelayBar {
    Hidden,
    Placeholder,
    /// A button for each of the first relays.
    Buttons(usize),
}

/// What the main panel shows.
pub struct MainPanel {
    /// Whether the own curve stands alone and is drawn strong.
    pub alone: bool,
    pub curves: Vec<Curve>,
    pub resonance_peaks: Vec<(usize, Level)>,
    pub masking: Vec<Level>,
    pub relay_bar: RelayBar,
}

/// The bar above the spectrum view.
pub open spec fn bar_of(mode: i64, relays: nat) -> RelayBar {
    if mode == 0 {
        RelayBar::Hidden
    } else if relays == 0 {
        RelayBar::Placeholder
    } else {
        RelayBar::Buttons(
            if relays < MAX_VISIBLE_RELAYS {
                relays as usize
            } else {
                MAX_VISIBLE_RELAYS
            },
        )
    }
}

/// Whether `curves` are the own spectrum and those of the relays.
pub open spec fn curves_of(own: Seq<Level>, relays: Seq<RelayData>, curves: Seq<Curve>) -> bool {
    &&& curves.len() == 1 + relays.len()
    &&& curves[0].spectrum@ == own
    &&& curves[0].color is None
    &&& forall|i: int|
        0 <= i < relays.len() ==> {
            &&& (#[trigger] curves[i + 1]).spectrum@ == relays[i].spectrum@
            &&& curves[i + 1].color == Some((i % RELAY_COLORS as int) as usize)
        }
}

impl LucentEditor {
    /// What the main panel shows.
    pub fn render_main_panel(&self) -> (r: MainPanel)
        ensures
            curves_of(
                self.ui_state.own_spectrum@,
                if self.params.analyze_mode == 0 {
                    Seq::empty()
                } else {
                    switched_on(self.ui_state.relays@, self.ui_state.relays@.len())
                },
                r.curves@,
            ),
            r.alone == (self.params.analyze_mode == 0 || self.ui_state.relays@.len() == 0),
            r.resonance_peaks@ == (if self.show_resonance {
                self.resonance_cache@
            } else {
                Seq::empty()
            }),
            r.masking@ == (if self.show_masking && (self.ui_state.relays@.len() > 0
                || self.params.analyze_mode == 2) {
                self.masking_cache@
            } else {
                Seq::empty()
            }),
            r.relay_bar == bar_of(self.params.analyze_mode, self.ui_state.relays@.len()),
    {
        let mode: i64 = self.params.analyze_mode;
        let mut curves: Vec<Curve> = Vec::new();
        curves.push(Curve { spectrum: copy_levels(&self.ui_state.own_spectrum), color: None });
        if mode != 0 {
            let active: Vec<&RelayData> = self.ui_state.active_relays();
            let ghost on = switched_on(self.ui_state.relays@, self.ui_state.relays@.len());
            proof {
                assert(crate::named_relays::pointed(active@).len() == active@.len());
            }
            for i in 0..active.len()
                invariant
                    on == crate::named_relays::pointed(active@),
                    curves_of(self.ui_state.own_spectrum@, on.take(i as int), curves@),
            {
                proof {
                    assert(on[i as int] == *active@[i as int]);
                }
                let ghost before = curves@;
                curves.push(
                    Curve {
                        spectrum: copy_levels(&active[i].spectrum),
                        color: Some(i % RELAY_COLORS),
                    },
                );
                proof {
                    let now = on.take(i as int + 1);
                    assert forall|k: int| 0 <= k < now.len() implies {
                        &&& (#[trigger] curves@[k + 1]).spectrum@ == now[k].spectrum@
                        &&& curves@[k + 1].color == Some((k % RELAY_COLORS as int) as usize)
                    } by {
                        if k < i {
                            assert(curves@[k + 1] == before[k + 1]);
                            assert(on.take(i as int)[k] == on[k]);
                        }
                    }
                }
            }
            proof {
                assert(on.take(on.len() as int) == on);
            }
        }
        let resonance_peaks: Vec<(usize, Level)> = if self.show_resonance {
            copy_peaks(&self.resonance_cache)
        } else {
            Vec::new()
        };
        let relays: usize = self.ui_state.relays.len();
        let masking: Vec<Level> = if self.show_masking && (relays > 0 || mode == 2) {
            copy_levels(&self.masking_cache)
        } else {
            Vec::new()
        };
        let relay_bar: RelayBar = if mode == 0 {
            RelayBar::Hidden
        } else if relays == 0 {
            RelayBar::Placeholder
        } else if relays < MAX_VISIBLE_RELAYS {
            RelayBar::Buttons(relays)
        } else {
            RelayBar::Buttons(MAX_VISIBLE_RELAYS)
        };
        MainPanel {
            alone: mode == 0 || relays == 0,
            curves,
            resonance_peaks,
            masking,
            relay_bar,
        }
    }

    /// What the snapshot button shows.
    pub fn snap_label(&self) -> (r: String)
        ensures
            r@ == (if self.snap_blink > 0 {
                "ANALYZING..."@
            } else {
                "SNAP"@
            }),
    {
        if self.snap_blink > 0 {
            "ANALYZING...".to_owned()
        } else {
            "SNAP".to_owned()
        }
    }

    /// The first resonances, as many as the summary lists.
    pub fn listed_resonances(&self) -> (r: Vec<(usize, Level)>)
        ensures
            r@ == self.resonance_cache@.take(
                if self.resonance_cache@.len() < SUMMARY_LINES {
                    self.resonance_cache@.len() as int
                } else {
                    SUMMARY_LINES as int
                },
            ),
    {
        let mut r: Vec<(usize, Level)> = copy_peaks(&self.resonance_cache);
        r.truncate(SUMMARY_LINES);
        proof {
            if self.resonance_cache@.len() <= SUMMARY_LINES {
                assert(self.resonance_cache@.take(self.resonance_cache@.len() as int)
                    == self.resonance_cache@);
            }
        }
        r
    }

    /// The summary of the resonances; `lines` holds the listed ones as text.
    pub fn resonance_summary(&self, lines: &Vec<String>) -> (r: String)
        ensures
            r@ == (if self.resonance_cache@.len() == 0 {
                "No resonances detected"@
            } else {
                join_texts(texts(lines@), "\n"@)
            }),
    {
        if self.resonance_cache.len() == 0 {
            "No resonances detected".to_owned()
        } else {
            join(lines, "\n")
        }
    }

    /// The loudest masked bins, as many as the summary lists; none without relays.
    pub fn listed_masking(&self) -> (r: Vec<(usize, Level)>)
        ensures
            self.params.analyze_mode == 0 || self.ui_state.relays@.len() == 0 ==> r@.len() == 0,
            self.params.analyze_mode != 0 && self.ui_state.relays@.len() > 0 ==> ranked(
                bins_above(
                    self.masking_cache@,
                    Level { bits: HEARD_BITS },
                    self.masking_cache@.len(),
                ),
                SUMMARY_LINES as nat,
                r@,
            ),
    {
        if self.params.analyze_mode == 0 || self.ui_state.relays.len() == 0 {
            return Vec::new();
        }
        let found: Vec<(usize, Level)> = collect_above(
            &self.masking_cache,
            Level { bits: HEARD_BITS },
        );
        proof {
            assert(self.masking_cache@.len() == self.masking_cache.len());
            crate::masking::lemma_above_are_numbers(
                self.masking_cache@,
                Level { bits: HEARD_BITS },
                self.masking_cache@.len(),
            );
        }
        rank_peaks(&found, SUMMARY_LINES)
    }

    /// The summary of the masking; `lines` holds the listed bins as text.
    pub fn masking_summary(&self, lines: &Vec<String>) -> (r: String)
        ensures
            r@ == (if self.params.analyze_mode == 0 {
                "Standalone — no masking"@
            } else if lines@.len() == 0 {
                "No masking detected"@
            } else {
                join_texts(texts(lines@), "\n"@)
            }),
    {
        if self.params.analyze_mode == 0 {
            "Standalone — no masking".to_owned()
        } else if lines.len() == 0 {
            "No masking detected".to_owned()
        } else {
            join(lines, "\n")
        }
    }
}

/// One line of the summary of the resonances.
pub fn resonance_line(hz: &str, score: &str) -> (r: String)
    ensures
        r@ == hz@ + " Hz  "@ + score@,
{
    let mut r: String = hz.to_owned();
    r.append(" Hz  ");
    r.append(score);
    r
}

/// One line of the summary of the masking.
pub fn masking_line(hz: &str, db: &str) -> (r: String)
    ensures
        r@ == hz@ + " Hz  "@ + db@ + " dB"@,
{
    let mut r: String = hz.to_owned();
    r.append(" Hz  ");
    r.append(db);
    r.append(" dB");
    r
}

} // verus!
