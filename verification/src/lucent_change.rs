//! Whether what the panel of Lucent shows has changed: numbers are compared as numbers, texts by
//! their characters.

use crate::level::Level;
use crate::lucent_view::{PanelMeters, Telemetry};
use crate::registry::NamedPeak;
use crate::relay_state::RelayData;
use crate::text::{names_equal, texts};
use vstd::prelude::*;
use vstd::string::*;

verus! {

/// Whether two lists hold equal numbers.
pub open spec fn equal_levels(a: Seq<Level>, b: Seq<Level>) -> bool {
    a.len() == b.len() && forall|i: int| 0 <= i < a.len() ==> (#[trigger] a[i]).same(b[i])
}

/// Whether two lists hold equal peaks.
pub open spec fn equal_peaks(a: Seq<(usize, Level)>, b: Seq<(usize, Level)>) -> bool {
    a.len() == b.len() && forall|i: int|
        0 <= i < a.len() ==> (#[trigger] a[i]).0 == b[i].0 && a[i].1.same(b[i].1)
}

/// Whether two lists hold equal peaks with the same names.
pub open spec fn equal_named(a: Seq<NamedPeak>, b: Seq<NamedPeak>) -> bool {
    a.len() == b.len() && forall|i: int|
        0 <= i < a.len() ==> (#[trigger] a[i]).0 == b[i].0 && a[i].1.same(b[i].1) && texts(a[i].2@)
            == texts(b[i].2@)
}

/// Whether two relays are equal.
pub open spec fn equal_relay(a: RelayData, b: RelayData) -> bool {
    a.slot == b.slot && a.name@ == b.name@ && equal_levels(a.spectrum@, b.spectrum@) && a.active
        == b.active
}

/// Whether two lists hold equal relays.
pub open spec fn equal_relays(a: Seq<RelayData>, b: Seq<RelayData>) -> bool {
    a.len() == b.len() && forall|i: int| 0 <= i < a.len() ==> equal_relay(#[trigger] a[i], b[i])
}

/// Whether the meters show equal numbers.
pub open spec fn equal_meters(a: PanelMeters, b: PanelMeters) -> bool {
    &&& a.peak_l.same(b.peak_l)
    &&& a.peak_r.same(b.peak_r)
    &&& a.hold.same(b.hold)
    &&& a.hold_l.same(b.hold_l)
    &&& a.hold_r.same(b.hold_r)
    &&& a.correlation.same(b.correlation)
    &&& a.balance.same(b.balance)
}

/// Whether the panel shows the same.
pub open spec fn equal_shown(a: Telemetry, b: Telemetry) -> bool {
    &&& equal_levels(a.own_spectrum@, b.own_spectrum@)
    &&& equal_relays(a.relays@, b.relays@)
    &&& equal_peaks(a.resonance.own@, b.resonance.own@)
    &&& equal_named(a.resonance.relay@, b.resonance.relay@)
    &&& equal_levels(a.masking@, b.masking@)
    &&& a.resonance_text@ == b.resonance_text@
    &&& a.masking_text@ == b.masking_text@
    &&& a.show_resonance == b.show_resonance
    &&& a.show_masking == b.show_masking
    &&& a.snap_blink == b.snap_blink
    &&& equal_meters(a.meters, b.meters)
}

fn levels_equal(a: &Vec<Level>, b: &Vec<Level>) -> (r: bool)
    ensures
        r == equal_levels(a@, b@),
{
    if a.len() != b.len() {
        return false;
    }
    for i in 0..a.len()
        invariant
            a@.len() == b@.len(),
            forall|k: int| 0 <= k < i ==> (#[trigger] a@[k]).same(b@[k]),
    {
        if !a[i].equals(b[i]) {
            return false;
        }
    }
    true
}

fn peaks_equal(a: &Vec<(usize, Level)>, b: &Vec<(usize, Level)>) -> (r: bool)
    ensures
        r == equal_peaks(a@, b@),
{
    if a.len() != b.len() {
        return false;
    }
    for i in 0..a.len()
        invariant
            a@.len() == b@.len(),
            forall|k: int| 0 <= k < i ==> (#[trigger] a@[k]).0 == b@[k].0 && a@[k].1.same(b@[k].1),
    {
        if a[i].0 != b[i].0 || !a[i].1.equals(b[i].1) {
            return false;
        }
    }
    true
}

fn named_equal(a: &Vec<NamedPeak>, b: &Vec<NamedPeak>) -> (r: bool)
    ensures
        r == equal_named(a@, b@),
{
    if a.len() != b.len() {
        return false;
    }
    for i in 0..a.len()
        invariant
            a@.len() == b@.len(),
            forall|k: int|
                0 <= k < i ==> (#[trigger] a@[k]).0 == b@[k].0 && a@[k].1.same(b@[k].1) && texts(
                    a@[k].2@,
                ) == texts(b@[k].2@),
    {
        if a[i].0 != b[i].0 || !a[i].1.equals(b[i].1) || !names_equal(&a[i].2, &b[i].2) {
            return false;
        }
    }
    true
}

fn relays_equal(a: &Vec<RelayData>, b: &Vec<RelayData>) -> (r: bool)
    ensures
        r == equal_relays(a@, b@),
{
    if a.len() != b.len() {
        return false;
    }
    for i in 0..a.len()
        invariant
            a@.len() == b@.len(),
            forall|k: int| 0 <= k < i ==> equal_relay(#[trigger] a@[k], b@[k]),
    {
        if a[i].slot != b[i].slot || a[i].name != b[i].name || a[i].active != b[i].active
            || !levels_equal(&a[i].spectrum, &b[i].spectrum) {
            return false;
        }
    }
    true
}

/// Whether the panel shows the same.
pub fn shown_equal(a: &Telemetry, b: &Telemetry) -> (r: bool)
    ensures
        r == equal_shown(*a, *b),
{
    let meters: bool = a.meters.peak_l.equals(b.meters.peak_l) && a.meters.peak_r.equals(
        b.meters.peak_r,
    ) && a.meters.hold.equals(b.meters.hold) && a.meters.hold_l.equals(b.meters.hold_l)
        && a.meters.hold_r.equals(b.meters.hold_r) && a.meters.correlation.equals(
        b.meters.correlation,
    ) && a.meters.balance.equals(b.meters.balance);
    meters && a.show_resonance == b.show_resonance && a.show_masking == b.show_masking
        && a.snap_blink == b.snap_blink && a.resonance_text == b.resonance_text && a.masking_text
        == b.masking_text && peaks_equal(&a.resonance.own, &b.resonance.own) && named_equal(
        &a.resonance.relay,
        &b.resonance.relay,
    ) && levels_equal(&a.own_spectrum, &b.own_spectrum) && levels_equal(&a.masking, &b.masking)
        && relays_equal(&a.relays, &b.relays)
}

} // verus!
