//! Panel titles and the status icons used where colour is not available.

use vstd::prelude::*;

use crate::text::{chars_of, push_str, string_of};

verus! {

/// The title of a panel: bracketed when focused, padded otherwise, so that
/// both have the same width.
pub open spec fn panel_title_spec(name: Seq<char>, focused: bool) -> Seq<char> {
    if focused {
        "[ "@ + name + " ]"@
    } else {
        "  "@ + name + "  "@
    }
}

/// Panel title formatting based on focus state.
pub fn panel_title(name: &str, focused: bool) -> (r: String)
    ensures
        r@ == panel_title_spec(name@, focused),
{
    let mut v = if focused {
        chars_of("[ ")
    } else {
        chars_of("  ")
    };
    push_str(&mut v, name);
    if focused {
        push_str(&mut v, " ]");
    } else {
        push_str(&mut v, "  ");
    }
    string_of(&v)
}

/// Status icons that read without colour.
pub struct Icons;

impl Icons {
    pub fn active() -> (r: &'static str)
        ensures
            r@ == "●"@,
    {
        "●"
    }

    pub fn done() -> (r: &'static str)
        ensures
            r@ == "✓"@,
    {
        "✓"
    }

    pub fn waiting() -> (r: &'static str)
        ensures
            r@ == "○"@,
    {
        "○"
    }

    pub fn skipped() -> (r: &'static str)
        ensures
            r@ == "–"@,
    {
        "–"
    }

    pub fn deferred() -> (r: &'static str)
        ensures
            r@ == "◇"@,
    {
        "◇"
    }

    pub fn error() -> (r: &'static str)
        ensures
            r@ == "✗"@,
    {
        "✗"
    }

    pub fn timeout() -> (r: &'static str)
        ensures
            r@ == "⏱"@,
    {
        "⏱"
    }

    pub fn staged() -> (r: &'static str)
        ensures
            r@ == "S"@,
    {
        "S"
    }

    pub fn unstaged() -> (r: &'static str)
        ensures
            r@ == "M"@,
    {
        "M"
    }

    pub fn untracked() -> (r: &'static str)
        ensures
            r@ == "?"@,
    {
        "?"
    }

    pub fn conflict() -> (r: &'static str)
        ensures
            r@ == "C!"@,
    {
        "C!"
    }
}

} // verus!
