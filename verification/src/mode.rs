//! The modes of Lucent: 0 analyses the own signal alone, 1 the own signal and the relays, any
//! other the relays alone.

use vstd::prelude::*;
use vstd::string::*;

verus! {

/// The mode behind a mode: from both to the own signal, to the relays, and back to both.
pub open spec fn mode_after(mode: i64) -> i64 {
    if mode == 1 {
        0
    } else if mode == 0 {
        2
    } else {
        1
    }
}

/// The mode behind the mode.
pub fn next_mode(mode: i64) -> (r: i64)
    ensures
        r == mode_after(mode),
        0 <= r <= 2,
{
    if mode == 1 {
        0
    } else if mode == 0 {
        2
    } else {
        1
    }
}

/// What the mode button shows.
pub open spec fn mode_caption(mode: i64) -> Seq<char> {
    if mode == 0 {
        "STANDALONE"@
    } else if mode == 2 {
        "RELAY"@
    } else {
        "HYBRID"@
    }
}

/// What the mode button shows.
pub fn mode_label(mode: i64) -> (r: String)
    ensures
        r@ == mode_caption(mode),
{
    if mode == 0 {
        "STANDALONE".to_owned()
    } else if mode == 2 {
        "RELAY".to_owned()
    } else {
        "HYBRID".to_owned()
    }
}

/// The name of a mode in a snapshot.
pub open spec fn mode_word(mode: i64) -> Seq<char> {
    if mode == 0 {
        "standalone"@
    } else if mode == 2 {
        "relay"@
    } else {
        "hybrid"@
    }
}

/// The name of the mode in a snapshot.
pub fn mode_name(mode: i64) -> (r: String)
    ensures
        r@ == mode_word(mode),
{
    if mode == 0 {
        "standalone".to_owned()
    } else if mode == 2 {
        "relay".to_owned()
    } else {
        "hybrid".to_owned()
    }
}

/// Cycling runs through all three modes and comes back after three steps.
pub proof fn law_cycling_visits_every_mode(mode: i64)
    requires
        0 <= mode <= 2,
    ensures
        mode_after(mode) != mode,
        mode_after(mode_after(mode)) != mode,
        mode_after(mode_after(mode_after(mode))) == mode,
{
}

} // verus!
