//! The folder that snapshots and presets are kept in.

use crate::text::{law_trimming_twice_is_trimming_once, trim_string, trimmed};
use vstd::prelude::*;
use vstd::string::*;

verus! {

/// The folder that a text names: the text without white space around it, none where nothing
/// is left.
pub open spec fn path_of(input: Seq<char>) -> Option<Seq<char>> {
    if trimmed(input).len() == 0 {
        None
    } else {
        Some(trimmed(input))
    }
}

/// The characters of an optional string.
pub open spec fn opt_text(s: Option<String>) -> Option<Seq<char>> {
    match s {
        Some(t) => Some(t@),
        None => None,
    }
}

/// The characters of an optional string, none where there is none.
pub open spec fn text_or_empty(s: Option<String>) -> Seq<char> {
    match s {
        Some(t) => t@,
        None => Seq::empty(),
    }
}

/// The folder that the text names.
pub fn vault_path_of(input: &String) -> (r: Option<String>)
    ensures
        opt_text(r) == path_of(input@),
{
    let t: String = trim_string(input);
    if t.as_str().is_empty() {
        None
    } else {
        Some(t)
    }
}

/// A copy of an optional string.
pub fn copy_path(s: &Option<String>) -> (r: Option<String>)
    ensures
        opt_text(r) == opt_text(*s),
{
    match s {
        Some(t) => Some(t.clone()),
        None => None,
    }
}

/// The string, or an empty one where there is none.
pub fn path_or_empty(s: &Option<String>) -> (r: String)
    ensures
        r@ == text_or_empty(*s),
{
    match s {
        Some(t) => t.clone(),
        None => String::new(),
    }
}

/// A folder that is shown for editing and saved unchanged stays the same folder.
pub proof fn law_saving_an_unchanged_path_keeps_it(input: Seq<char>)
    ensures
        path_of(input) is Some ==> path_of(path_of(input)->0) == path_of(input),
{
    law_trimming_twice_is_trimming_once(input);
}

} // verus!
