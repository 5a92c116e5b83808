//! The calls by which an editor changes the parameters of its plugin.

use crate::knob::Gesture;
use crate::level::Level;
use vstd::prelude::*;

verus! {

/// A value for a parameter: a number, the number of a choice, or a switch.
///
/// A number is in the unit of the parameter, but for the sliders of the immediate mode editor, whose
/// numbers are positions from 0 to 1.
#[derive(Clone, Copy, Debug, PartialEq, Eq, Structural)]
pub enum ParamValue {
    Number(Level),
    Choice(i32),
    Switch(bool),
}

/// One call to the host.
#[derive(Debug, PartialEq, Eq)]
pub enum Edit<P> {
    Begin(P),
    Change(P, ParamValue),
    End(P),
}

/// The calls that make one change.
pub open spec fn automated<P>(p: P, v: ParamValue) -> Seq<Edit<P>> {
    seq![Edit::Begin(p), Edit::Change(p, v), Edit::End(p)]
}

/// The calls that make the changes, one after the other.
pub open spec fn automated_all<P>(list: Seq<(P, ParamValue)>) -> Seq<Edit<P>>
    decreases list.len(),
{
    if list.len() == 0 {
        Seq::empty()
    } else {
        automated_all(list.drop_last()) + automated(list.last().0, list.last().1)
    }
}

/// The call that a step of a gesture makes.
pub open spec fn gesture_step<P>(p: P, g: Gesture) -> Edit<P> {
    match g {
        Gesture::Start => Edit::Begin(p),
        Gesture::Change(v) => Edit::Change(p, ParamValue::Number(v)),
        Gesture::End => Edit::End(p),
    }
}

/// Appends the calls that make one change.
pub fn push_edit<P: Copy>(edits: &mut Vec<Edit<P>>, p: P, v: ParamValue)
    ensures
        final(edits)@ == old(edits)@ + automated(p, v),
{
    edits.push(Edit::Begin(p));
    edits.push(Edit::Change(p, v));
    edits.push(Edit::End(p));
    proof {
        assert(edits@ =~= old(edits)@ + automated(p, v));
    }
}

/// The calls that make the changes.
pub fn automate_all<P: Copy>(list: &Vec<(P, ParamValue)>) -> (r: Vec<Edit<P>>)
    ensures
        r@ == automated_all(list@),
{
    let mut r: Vec<Edit<P>> = Vec::new();
    proof {
        assert(r@ =~= automated_all(list@.take(0)));
    }
    for i in 0..list.len()
        invariant
            r@ == automated_all(list@.take(i as int)),
    {
        let (p, v) = list[i];
        push_edit(&mut r, p, v);
        proof {
            let t = list@.take(i as int + 1);
            assert(t.drop_last() =~= list@.take(i as int));
            assert(t.last() == list@[i as int]);
        }
    }
    proof {
        assert(list@.take(list@.len() as int) =~= list@);
    }
    r
}

/// The call that a step of a gesture makes.
pub fn gesture_edit<P>(p: P, g: Gesture) -> (r: Edit<P>)
    ensures
        r == gesture_step(p, g),
{
    match g {
        Gesture::Start => Edit::Begin(p),
        Gesture::Change(v) => Edit::Change(p, ParamValue::Number(v)),
        Gesture::End => Edit::End(p),
    }
}

} // verus!
