//! The panel of Aurum: its tabs, its snapshot button and its set-up form.

use crate::aurum_editor::{reduction_text, AurumTab, NO_REDUCTION_BITS};
use crate::aurum_params::AurumParam;
use crate::level::Level;
use crate::vault::{copy_path, opt_text, path_of, path_or_empty, text_or_empty, vault_path_of};
use vstd::prelude::*;
use vstd::string::*;

verus! {

/// How many ticks the snapshot button stays lit.
pub const SNAP_TICKS: u32 = 72;

/// The panel.
pub struct AurumPanel {
    pub tab: usize,
    /// How many ticks the snapshot button stays lit.
    pub snap: u32,
    pub vault_path: Option<String>,
    pub vault_path_input: String,
    pub show_setup: bool,
}

/// The positions, from 0 to 1, to which a reset brings parameters.
pub open spec fn reset_positions() -> Seq<(AurumParam, Level)> {
    seq![
        (AurumParam::ClipCeiling, Level { bits: 0x3f51_1340 }),
        (AurumParam::OutputGain, Level { bits: 0x3f00_0000 }),
        (AurumParam::StereoWidth, Level { bits: 0x3f00_0000 }),
    ]
}

/// The positions to which a reset brings parameters, in order.
pub fn panel_reset() -> (r: Vec<(AurumParam, Level)>)
    ensures
        r@ == reset_positions(),
{
    let r: Vec<(AurumParam, Level)> = vec![
        (AurumParam::ClipCeiling, Level { bits: 0x3f51_1340 }),
        (AurumParam::OutputGain, Level { bits: 0x3f00_0000 }),
        (AurumParam::StereoWidth, Level { bits: 0x3f00_0000 }),
    ];
    proof {
        assert(r@ =~= reset_positions());
    }
    r
}

/// The position of a switch once it is flipped; `value` is what it stands at.
pub fn flipped(value: Level) -> (r: bool)
    ensures
        r == value.same(Level { bits: 0 }),
{
    value.equals(Level { bits: 0 })
}

impl AurumPanel {
    /// A panel on the first tab.
    pub fn new(vault_path: Option<String>) -> (r: AurumPanel)
        ensures
            r.tab == 0,
            r.snap == 0,
            opt_text(r.vault_path) == opt_text(vault_path),
            r.vault_path_input@ == text_or_empty(vault_path),
            !r.show_setup,
    {
        AurumPanel {
            tab: 0,
            snap: 0,
            vault_path: copy_path(&vault_path),
            vault_path_input: path_or_empty(&vault_path),
            show_setup: false,
        }
    }

    /// One tick.
    pub fn tick(&mut self)
        ensures
            *final(self) == (AurumPanel {
                snap: if old(self).snap > 0 {
                    (old(self).snap - 1) as u32
                } else {
                    0
                },
                ..*old(self)
            }),
    {
        if self.snap > 0 {
            self.snap = self.snap - 1;
        }
    }

    /// Lights the snapshot button.
    pub fn press_snap(&mut self)
        ensures
            *final(self) == (AurumPanel { snap: SNAP_TICKS, ..*old(self) }),
    {
        self.snap = SNAP_TICKS;
    }

    /// What the snapshot button shows.
    pub fn snap_label(&self) -> (r: String)
        ensures
            r@ == (if self.snap > 0 {
                "ANALYZING..."@
            } else {
                "SNAP"@
            }),
    {
        if self.snap > 0 {
            "ANALYZING...".to_owned()
        } else {
            "SNAP".to_owned()
        }
    }

    /// The tab that is shown; none while the set-up form is open.
    pub fn shown_tab(&self) -> (r: Option<AurumTab>)
        ensures
            r == (if self.show_setup {
                None
            } else if self.tab == 0 {
                Some(AurumTab::Shape)
            } else if self.tab == 1 {
                Some(AurumTab::Color)
            } else {
                Some(AurumTab::Limit)
            }),
    {
        if self.show_setup {
            None
        } else if self.tab == 0 {
            Some(AurumTab::Shape)
        } else if self.tab == 1 {
            Some(AurumTab::Color)
        } else {
            Some(AurumTab::Limit)
        }
    }

    /// Opens or closes the set-up form.
    pub fn toggle_setup(&mut self)
        ensures
            *final(self) == (AurumPanel { show_setup: !old(self).show_setup, ..*old(self) }),
    {
        self.show_setup = !self.show_setup;
    }

    /// Takes over the folder in the form and closes it.
    pub fn save_vault_path(&mut self)
        ensures
            opt_text(final(self).vault_path) == path_of(old(self).vault_path_input@),
            *final(self) == (AurumPanel {
                vault_path: final(self).vault_path,
                show_setup: false,
                ..*old(self)
            }),
    {
        self.vault_path = vault_path_of(&self.vault_path_input);
        self.show_setup = false;
    }
}

/// The line beside the limiter: the gain reduction and the peaks of both channels.  `text`, `left`
/// and `right` are these levels with one decimal.
pub fn panel_line(gr: Level, text: &str, left: &str, right: &str) -> (r: String)
    ensures
        r@ == "GR "@ + reduction_text(gr, text@) + " | L "@ + left@ + " R "@ + right@ + " dB"@,
{
    let mut r: String = "GR ".to_owned();
    if gr.ge(Level { bits: NO_REDUCTION_BITS }) {
        r.append("0.0 dB");
        proof {
            assert(r@ =~= "GR "@ + reduction_text(gr, text@));
        }
    } else {
        r.append(text);
        r.append(" dB");
        proof {
            assert(r@ =~= "GR "@ + reduction_text(gr, text@));
        }
    }
    r.append(" | L ");
    r.append(left);
    r.append(" R ");
    r.append(right);
    r.append(" dB");
    r
}

} // verus!
