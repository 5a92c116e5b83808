//! The sliders and switches of the immediate mode editor of Equilibrium.

use crate::equilibrium_params::Param;
use crate::host::{automated, push_edit, Edit, ParamValue};
use crate::level::Level;
use vstd::prelude::*;
use vstd::string::*;

verus! {

/// The bit pattern of `1.0`.
pub const END_BITS: u32 = 0x3f80_0000;

/// The bit pattern of `0.5`: a switch above it is on.
pub const SWITCH_BITS: u32 = 0x3f00_0000;

/// What the mouse did with a slider during a frame.
#[derive(Clone, Copy, Debug, PartialEq, Eq, Structural)]
pub struct SliderResponse {
    pub double_clicked: bool,
    pub secondary_clicked: bool,
    pub drag_started: bool,
    /// Where the mouse drags the slider to, as a part of its width.
    pub dragged: Option<Level>,
    pub drag_stopped: bool,
}

/// A position on a slider, from 0 at its left end to 1 at its right end, and not in the unit of the
/// parameter.
pub open spec fn position(x: Level) -> ParamValue {
    ParamValue::Number(x.clamped(Level { bits: 0 }, Level { bits: END_BITS }))
}

/// The calls that a frame of a slider makes: first a reset, then the start, the position and the end
/// of a drag.
pub open spec fn slider_calls(p: Param, default: Level, r: SliderResponse) -> Seq<Edit<Param>> {
    let reset = if r.double_clicked || r.secondary_clicked {
        automated(p, position(default))
    } else {
        Seq::empty()
    };
    let begun = if r.drag_started {
        reset.push(Edit::Begin(p))
    } else {
        reset
    };
    let moved = match r.dragged {
        Some(x) => begun.push(Edit::Change(p, position(x))),
        None => begun,
    };
    if r.drag_stopped {
        moved.push(Edit::End(p))
    } else {
        moved
    }
}

fn position_of(x: Level) -> (r: ParamValue)
    ensures
        r == position(x),
{
    ParamValue::Number(x.clamp(Level { bits: 0 }, Level { bits: END_BITS }))
}

/// The calls that a frame of a slider makes; `default` is the position that a reset brings it to.
pub fn lx_hslider(p: Param, default: Level, r: SliderResponse) -> (calls: Vec<Edit<Param>>)
    ensures
        calls@ == slider_calls(p, default, r),
{
    let mut calls: Vec<Edit<Param>> = Vec::new();
    if r.double_clicked || r.secondary_clicked {
        let v: ParamValue = position_of(default);
        push_edit(&mut calls, p, v);
        proof {
            assert(calls@ =~= automated(p, v));
        }
    }
    if r.drag_started {
        calls.push(Edit::Begin(p));
    }
    if let Some(x) = r.dragged {
        let v: ParamValue = position_of(x);
        calls.push(Edit::Change(p, v));
    }
    if r.drag_stopped {
        calls.push(Edit::End(p));
    }
    calls
}

/// Whether a slider fills from its zero rather than from its left end.
pub fn fills_from_zero(min: Level, max: Level) -> (r: bool)
    ensures
        r == ((Level { bits: 0 }).above(min) && max.above(Level { bits: 0 })),
{
    (Level { bits: 0 }).gt(min) && max.gt(Level { bits: 0 })
}

/// The calls that a frame of a switch makes; `value` is what the switch stands at.
pub fn lx_toggle(p: Param, value: Level, clicked: bool) -> (calls: Vec<Edit<Param>>)
    ensures
        calls@ == (if clicked {
            automated(p, ParamValue::Switch(!value.above(Level { bits: SWITCH_BITS })))
        } else {
            Seq::empty()
        }),
{
    let mut calls: Vec<Edit<Param>> = Vec::new();
    if clicked {
        let v: ParamValue = ParamValue::Switch(!value.gt(Level { bits: SWITCH_BITS }));
        push_edit(&mut calls, p, v);
        proof {
            assert(calls@ =~= automated(p, v));
        }
    }
    calls
}

/// What the button for the loudness shows.
pub fn loud_label(measuring: bool) -> (r: String)
    ensures
        r@ == (if measuring {
            "MEASURING..."@
        } else {
            "AUTO LOUD"@
        }),
{
    if measuring {
        "MEASURING...".to_owned()
    } else {
        "AUTO LOUD".to_owned()
    }
}

} // verus!
