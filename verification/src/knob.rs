//! A knob that is turned with the mouse, and the readout under it.

use crate::level::Level;
use vstd::prelude::*;
use vstd::string::*;

verus! {

/// A second click within this many milliseconds resets a knob.
pub const DOUBLE_CLICK_MS: u64 = 400;

/// The bit pattern of `1.0`, the end of the scale of a knob.
pub const SCALE_END_BITS: u32 = 0x3f80_0000;

/// The bit pattern of `1000.0`.
pub const B1000: u32 = 0x447a_0000;

/// The bit pattern of `100.0`.
pub const HUNDRED_BITS: u32 = 0x42c8_0000;

/// One step of a change that the host records: its start, a new value, its end.
#[derive(Clone, Copy, Debug, PartialEq, Eq, Structural)]
pub enum Gesture {
    Start,
    Change(Level),
    End,
}

/// What the mouse did.  Times are in milliseconds and never run backwards.
#[derive(Clone, Copy, Debug, PartialEq, Eq, Structural)]
pub enum KnobEvent {
    RightDown,
    LeftDown { now_ms: u64, y: Level },
    LeftUp,
    Move { y: Level },
    Enter,
    Leave,
}

/// What becomes of the mouse.
#[derive(Clone, Copy, Debug, PartialEq, Eq, Structural)]
pub enum Mouse {
    Keep,
    Capture,
    Release,
}

/// What a knob asks for after an event.
#[derive(Clone, Copy, Debug, PartialEq, Eq, Structural)]
pub struct KnobReply {
    pub gesture: Option<Gesture>,
    pub mouse: Mouse,
    /// Whether the event goes no further.
    pub consumed: bool,
    pub redraw: bool,
}

/// A knob.  Its position runs from 0 to 1; `min` and `max` are the values at the ends.
#[derive(Clone, Copy, Debug, PartialEq, Eq, Structural)]
pub struct KnobView {
    pub value_norm: Level,
    pub default_norm: Level,
    pub min: Level,
    pub max: Level,
    pub bipolar: bool,
    pub dragging: bool,
    pub drag_start_y: Level,
    pub drag_start_norm: Level,
    pub last_click: Option<u64>,
    pub hovered: bool,
}

/// Nothing is asked for.
pub open spec fn quiet() -> KnobReply {
    KnobReply { gesture: None, mouse: Mouse::Keep, consumed: false, redraw: false }
}

/// Whether a click at `now` follows the remembered one closely.
pub open spec fn is_double(last: Option<u64>, now: u64) -> bool {
    last is Some && now >= last->0 && now - last->0 < DOUBLE_CLICK_MS
}

/// Whether the knob goes back to its default on the event.
pub open spec fn resets(k: KnobView, e: KnobEvent, over: bool) -> bool {
    over && match e {
        KnobEvent::RightDown => true,
        KnobEvent::LeftDown { now_ms, y } => is_double(k.last_click, now_ms),
        _ => false,
    }
}

/// Whether the event starts a drag.
pub open spec fn starts(k: KnobView, e: KnobEvent, over: bool) -> bool {
    over && match e {
        KnobEvent::LeftDown { now_ms, y } => !is_double(k.last_click, now_ms),
        _ => false,
    }
}

/// A position held on the scale of the knob.
pub open spec fn on_scale(norm: Level) -> Level {
    norm.clamped(Level { bits: 0 }, Level { bits: SCALE_END_BITS })
}

/// Whether `norm` is the position after a drag from the position `start` at the height `from` to
/// the height `to`: where it leads, held on the scale.
pub open spec fn is_turned<T: Fn(Level, Level, Level) -> Level>(
    turned: T,
    start: Level,
    from: Level,
    to: Level,
    norm: Level,
) -> bool {
    exists|raw: Level|
        #![trigger on_scale(raw)]
        call_ensures(turned, (start, from, to), raw) && norm == on_scale(raw)
}

/// Whether `r` is what the knob asks for, and `after` the knob behind the event.
///
/// `value` gives the value at a position, `turned` where a drag leads to from the position `start`
/// at the height `from` to the height `to`.
pub open spec fn answers<V: Fn(Level) -> Level, T: Fn(Level, Level, Level) -> Level>(
    k: KnobView,
    e: KnobEvent,
    over: bool,
    value: V,
    turned: T,
    after: KnobView,
    r: KnobReply,
) -> bool {
    if resets(k, e, over) {
        &&& r.gesture matches Some(Gesture::Change(v))
        &&& call_ensures(value, (k.default_norm,), v)
        &&& r.mouse == Mouse::Keep
        &&& r.consumed
        &&& !r.redraw
        &&& after == (KnobView {
            dragging: false,
            last_click: if e is RightDown {
                k.last_click
            } else {
                None
            },
            ..k
        })
    } else if starts(k, e, over) {
        &&& e matches KnobEvent::LeftDown { now_ms, y }
        &&& r == (KnobReply {
            gesture: Some(Gesture::Start),
            mouse: Mouse::Capture,
            consumed: true,
            redraw: false,
        })
        &&& after == (KnobView {
            dragging: true,
            drag_start_y: y,
            drag_start_norm: k.value_norm,
            last_click: Some(now_ms),
            ..k
        })
    } else {
        match e {
            KnobEvent::LeftUp => if k.dragging {
                &&& r == (KnobReply {
                    gesture: Some(Gesture::End),
                    mouse: Mouse::Release,
                    consumed: true,
                    redraw: false,
                })
                &&& after == (KnobView { dragging: false, ..k })
            } else {
                r == quiet() && after == k
            },
            KnobEvent::Move { y } => if k.dragging {
                &&& is_turned(turned, k.drag_start_norm, k.drag_start_y, y, after.value_norm)
                &&& r.gesture matches Some(Gesture::Change(v))
                &&& call_ensures(value, (after.value_norm,), v)
                &&& r.mouse == Mouse::Keep
                &&& !r.consumed
                &&& r.redraw
                &&& after == (KnobView { value_norm: after.value_norm, ..k })
            } else {
                r == quiet() && after == k
            },
            KnobEvent::Enter => {
                &&& r == (KnobReply { redraw: true, ..quiet() })
                &&& after == (KnobView { hovered: true, ..k })
            },
            KnobEvent::Leave => {
                &&& r == (KnobReply { redraw: true, ..quiet() })
                &&& after == (KnobView { hovered: false, ..k })
            },
            _ => r == quiet() && after == k,
        }
    }
}

impl KnobView {
    /// A knob at rest.
    pub fn new(
        value_norm: Level,
        default_norm: Level,
        min: Level,
        max: Level,
        bipolar: bool,
    ) -> (r: KnobView)
        ensures
            r == (KnobView {
                value_norm,
                default_norm,
                min,
                max,
                bipolar,
                dragging: false,
                drag_start_y: Level { bits: 0 },
                drag_start_norm: Level { bits: 0 },
                last_click: None,
                hovered: false,
            }),
    {
        KnobView {
            value_norm,
            default_norm,
            min,
            max,
            bipolar,
            dragging: false,
            drag_start_y: Level { bits: 0 },
            drag_start_norm: Level { bits: 0 },
            last_click: None,
            hovered: false,
        }
    }

    /// Handles an event; `over` tells whether the mouse is over the knob.
    ///
    /// `value` gives the value at a position, `turned` where a drag leads to.
    pub fn event<V: Fn(Level) -> Level, T: Fn(Level, Level, Level) -> Level>(
        &mut self,
        e: KnobEvent,
        over: bool,
        value: V,
        turned: T,
    ) -> (r: KnobReply)
        requires
            forall|n: Level| call_requires(value, (n,)),
            forall|n: Level, a: Level, b: Level| call_requires(turned, (n, a, b)),
        ensures
            answers(*old(self), e, over, value, turned, *final(self), r),
    {
        let quiet: KnobReply = KnobReply {
            gesture: None,
            mouse: Mouse::Keep,
            consumed: false,
            redraw: false,
        };
        match e {
            KnobEvent::RightDown => {
                if over {
                    self.dragging = false;
                    let v: Level = value(self.default_norm);
                    return KnobReply {
                        gesture: Some(Gesture::Change(v)),
                        consumed: true,
                        ..quiet
                    };
                }
                quiet
            },
            KnobEvent::LeftDown { now_ms, y } => {
                if !over {
                    return quiet;
                }
                let double: bool = match self.last_click {
                    Some(last) => now_ms >= last && now_ms - last < DOUBLE_CLICK_MS,
                    None => false,
                };
                if double {
                    self.last_click = None;
                    self.dragging = false;
                    let v: Level = value(self.default_norm);
                    return KnobReply {
                        gesture: Some(Gesture::Change(v)),
                        consumed: true,
                        ..quiet
                    };
                }
                self.last_click = Some(now_ms);
                self.dragging = true;
                self.drag_start_y = y;
                self.drag_start_norm = self.value_norm;
                KnobReply {
                    gesture: Some(Gesture::Start),
                    mouse: Mouse::Capture,
                    consumed: true,
                    redraw: false,
                }
            },
            KnobEvent::LeftUp => {
                if !self.dragging {
                    return quiet;
                }
                self.dragging = false;
                KnobReply {
                    gesture: Some(Gesture::End),
                    mouse: Mouse::Release,
                    consumed: true,
                    redraw: false,
                }
            },
            KnobEvent::Move { y } => {
                if !self.dragging {
                    return quiet;
                }
                let raw: Level = turned(self.drag_start_norm, self.drag_start_y, y);
                let norm: Level = raw.clamp(Level { bits: 0 }, Level { bits: SCALE_END_BITS });
                proof {
                    assert(norm == on_scale(raw));
                }
                self.value_norm = norm;
                let v: Level = value(norm);
                KnobReply { gesture: Some(Gesture::Change(v)), redraw: true, ..quiet }
            },
            KnobEvent::Enter => {
                self.hovered = true;
                KnobReply { redraw: true, ..quiet }
            },
            KnobEvent::Leave => {
                self.hovered = false;
                KnobReply { redraw: true, ..quiet }
            },
        }
    }
}

/// A change ends only where one was under way, and none is under way behind its end.
pub proof fn law_a_change_ends_once<V: Fn(Level) -> Level, T: Fn(Level, Level, Level) -> Level>(
    k: KnobView,
    e: KnobEvent,
    over: bool,
    value: V,
    turned: T,
    after: KnobView,
    r: KnobReply,
)
    requires
        answers(k, e, over, value, turned, after, r),
    ensures
        r.gesture == Some(Gesture::End) ==> k.dragging && !after.dragging,
        r.gesture == Some(Gesture::Start) ==> after.dragging,
        !k.dragging && after.dragging ==> r.gesture == Some(Gesture::Start),
        r.mouse == Mouse::Release <==> r.gesture == Some(Gesture::End),
        r.mouse == Mouse::Capture <==> r.gesture == Some(Gesture::Start),
{
}

/// A drag is one change from its start to its end: the press starts it, a move turns the knob to
/// where it leads on the scale, the release ends it, and a move behind that does nothing.
pub proof fn law_a_drag_is_one_change<
    V: Fn(Level) -> Level,
    T: Fn(Level, Level, Level) -> Level,
>(
    value: V,
    turned: T,
    k: KnobView,
    now_ms: u64,
    from: Level,
    to: Level,
    later: Level,
    over_move: bool,
    over_up: bool,
    over_later: bool,
    pressed: KnobView,
    press: KnobReply,
    moved: KnobView,
    move_reply: KnobReply,
    released: KnobView,
    release: KnobReply,
    after: KnobView,
    last: KnobReply,
)
    requires
        !is_double(k.last_click, now_ms),
        answers(
            k,
            KnobEvent::LeftDown { now_ms, y: from },
            true,
            value,
            turned,
            pressed,
            press,
        ),
        answers(
            pressed,
            KnobEvent::Move { y: to },
            over_move,
            value,
            turned,
            moved,
            move_reply,
        ),
        answers(moved, KnobEvent::LeftUp, over_up, value, turned, released, release),
        answers(
            released,
            KnobEvent::Move { y: later },
            over_later,
            value,
            turned,
            after,
            last,
        ),
    ensures
        press.gesture == Some(Gesture::Start),
        is_turned(turned, k.value_norm, from, to, moved.value_norm),
        move_reply.gesture matches Some(Gesture::Change(v)) && call_ensures(
            value,
            (moved.value_norm,),
            v,
        ),
        release.gesture == Some(Gesture::End),
        last == quiet(),
        after == released,
        after.value_norm == moved.value_norm,
{
}

/// A double click resets the knob and is forgotten: the click behind it starts a drag.
pub proof fn law_a_third_click_starts_a_drag<
    V: Fn(Level) -> Level,
    T: Fn(Level, Level, Level) -> Level,
>(
    k: KnobView,
    first: u64,
    second: u64,
    y: Level,
    value: V,
    turned: T,
    after: KnobView,
    r: KnobReply,
    third: u64,
)
    requires
        k.last_click == Some(first),
        first <= second < first + DOUBLE_CLICK_MS,
        answers(
            k,
            KnobEvent::LeftDown { now_ms: second, y },
            true,
            value,
            turned,
            after,
            r,
        ),
    ensures
        r.gesture is Some && r.gesture->0 is Change,
        !after.dragging,
        after.value_norm == k.value_norm,
        starts(after, (KnobEvent::LeftDown { now_ms: third, y }), true),
{
}

/// The readout of a knob: thousands where the knob reaches that far and stands there, whole
/// numbers where it reaches 100, and two decimals else.
pub open spec fn readout(
    value: Level,
    max: Level,
    thousands: Seq<char>,
    whole: Seq<char>,
    fine: Seq<char>,
) -> Seq<char> {
    if max.at_least(Level { bits: B1000 }) && value.at_least(Level { bits: B1000 }) {
        thousands + "k"@
    } else if max.at_least(Level { bits: HUNDRED_BITS }) {
        whole
    } else {
        fine
    }
}

/// The readout of a knob.
///
/// `thousands` is a thousandth of the value with one decimal, `whole` the value with none, and
/// `fine` the value with two.
pub fn format_knob_value(
    value: Level,
    max: Level,
    thousands: &str,
    whole: &str,
    fine: &str,
) -> (r: String)
    ensures
        r@ == readout(value, max, thousands@, whole@, fine@),
{
    let thousand: Level = Level { bits: B1000 };
    if max.ge(thousand) && value.ge(thousand) {
        let mut r: String = thousands.to_owned();
        r.append("k");
        r
    } else if max.ge(Level { bits: HUNDRED_BITS }) {
        whole.to_owned()
    } else {
        fine.to_owned()
    }
}

} // verus!
