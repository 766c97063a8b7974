//! User intents produced by key handling and carried out by the app.

use vstd::prelude::*;

verus! {

#[derive(Debug, Clone, Copy, PartialEq, Eq, Structural)]
pub enum Direction {
    Up,
    Down,
    Left,
    Right,
}

#[derive(Debug, Clone)]
pub enum Action {
    // Navigation
    FocusNextPanel,
    FocusPrevPanel,
    FocusDirection(Direction),
    ExpandPanel,
    CollapsePanel,
    OpenArtifactModal,
    // Panel interaction
    ScrollUp,
    ScrollDown,
    Select,
    // Carried out asynchronously by the command runner
    Refresh,
    CopyToClipboard(String),
    // System
    Quit,
}

/// The stable name of an action, used in command results and logs.
pub open spec fn action_name(a: Action) -> Seq<char> {
    match a {
        Action::FocusNextPanel => "focus_next_panel"@,
        Action::FocusPrevPanel => "focus_prev_panel"@,
        Action::FocusDirection(_) => "focus_direction"@,
        Action::ExpandPanel => "expand_panel"@,
        Action::CollapsePanel => "collapse_panel"@,
        Action::OpenArtifactModal => "open_artifact_modal"@,
        Action::ScrollUp => "scroll_up"@,
        Action::ScrollDown => "scroll_down"@,
        Action::Select => "select"@,
        Action::Refresh => "refresh"@,
        Action::CopyToClipboard(_) => "copy_to_clipboard"@,
        Action::Quit => "quit"@,
    }
}

/// Actions that the command runner carries out in the background.
pub open spec fn action_is_async(a: Action) -> bool {
    a is Refresh || a is CopyToClipboard
}

impl Action {
    pub fn name(&self) -> (r: &'static str)
        ensures
            r@ == action_name(*self),
    {
        match self {
            Action::FocusNextPanel => "focus_next_panel",
            Action::FocusPrevPanel => "focus_prev_panel",
            Action::FocusDirection(_) => "focus_direction",
            Action::ExpandPanel => "expand_panel",
            Action::CollapsePanel => "collapse_panel",
            Action::OpenArtifactModal => "open_artifact_modal",
            Action::ScrollUp => "scroll_up",
            Action::ScrollDown => "scroll_down",
            Action::Select => "select",
            Action::Refresh => "refresh",
            Action::CopyToClipboard(_) => "copy_to_clipboard",
            Action::Quit => "quit",
        }
    }

    pub fn is_async(&self) -> (r: bool)
        ensures
            r == action_is_async(*self),
    {
        match self {
            Action::Refresh | Action::CopyToClipboard(_) => true,
            _ => false,
        }
    }
}

} // verus!
