//! The texts of the header bar (the phase and whether the hook endpoint
//! runs) and of the status bar's key hints.

use vstd::prelude::*;

use crate::text::{chars_of, decimal, decimal_chars, push_all, push_str, string_of};

verus! {

/// ` Phase: {phase} `.
pub fn phase_banner(phase: &str) -> (r: String)
    ensures
        r@ == " Phase: "@ + phase@ + " "@,
{
    let mut v = chars_of(" Phase: ");
    push_str(&mut v, phase);
    push_str(&mut v, " ");
    string_of(&v)
}

/// ` Hooks: ● {port} ` while the endpoint runs (the port where known),
/// ` Hooks: ○ ` otherwise.
pub fn hooks_banner(active: bool, port: Option<u16>) -> (r: String)
    ensures
        r@ == if active {
            " Hooks: ●"@ + match port {
                Some(p) => " "@ + decimal(p as nat),
                None => Seq::<char>::empty(),
            } + " "@
        } else {
            " Hooks: ○ "@
        },
{
    if !active {
        return " Hooks: ○ ".to_string();
    }
    let mut v = chars_of(" Hooks: ●");
    let ghost before = v@;
    match port {
        Some(p) => {
            push_str(&mut v, " ");
            push_all(&mut v, &decimal_chars(p as u64));
        },
        None => {},
    }
    push_str(&mut v, " ");
    proof {
        match port {
            Some(p) => {
                assert(v@ =~= before + (" "@ + decimal(p as nat)) + " "@);
            },
            None => {
                assert(v@ =~= before + Seq::<char>::empty() + " "@);
            },
        }
    }
    string_of(&v)
}

/// The status bar's key hints (key, what it does); the direction keys only
/// in the wide layout, where they apply.
pub open spec fn status_hints_spec(wide: bool) -> Seq<(Seq<char>, Seq<char>)> {
    seq![("Tab"@, "패널"@)] + (if wide {
        seq![("C-hjkl"@, "방향"@)]
    } else {
        Seq::empty()
    }) + seq![
        ("j/k"@, "스크롤"@),
        ("f"@, "확대"@),
        ("Enter"@, "상세"@),
        ("r"@, "새로고침"@),
        ("?"@, "도움말"@),
        ("q"@, "종료"@),
    ]
}

pub open spec fn hint_views(v: Seq<(&'static str, &'static str)>) -> Seq<(Seq<char>, Seq<char>)> {
    v.map_values(|h: (&'static str, &'static str)| (h.0@, h.1@))
}

pub fn status_hints(wide: bool) -> (r: Vec<(&'static str, &'static str)>)
    ensures
        hint_views(r@) == status_hints_spec(wide),
{
    let mut v: Vec<(&'static str, &'static str)> = Vec::new();
    v.push(("Tab", "패널"));
    if wide {
        v.push(("C-hjkl", "방향"));
    }
    v.push(("j/k", "스크롤"));
    v.push(("f", "확대"));
    v.push(("Enter", "상세"));
    v.push(("r", "새로고침"));
    v.push(("?", "도움말"));
    v.push(("q", "종료"));
    assert(hint_views(v@) =~= status_hints_spec(wide));
    v
}

} // verus!
