//! Token usage panel: the latest snapshot and a scroll position kept
//! within the lines the panel shows.

use vstd::prelude::*;

use crate::action::Action;
use crate::event::AppEvent;
use crate::input::{KeyCode, KeyEvent};
use crate::parser::models::{TokenRecord, TokenSnapshot, TokenSnapshotV};
use crate::panel::workflow_map::{is_down, is_up};

verus! {

pub struct TokenUsagePanel {
    pub snapshot: TokenSnapshot,
    pub scroll_offset: usize,
}

pub ghost struct TokenUsageV {
    pub snapshot: TokenSnapshotV,
    pub scroll_offset: usize,
}

impl View for TokenUsagePanel {
    type V = TokenUsageV;

    open spec fn view(&self) -> TokenUsageV {
        TokenUsageV { snapshot: self.snapshot@, scroll_offset: self.scroll_offset }
    }
}

/// Lines the panel shows: a waiting notice before the first turn; then
/// input, its breakdown, output, total, a blank line, rate and turns.
pub open spec fn line_count_spec(s: TokenSnapshotV) -> nat {
    if s.turn_count == 0 {
        1
    } else {
        7
    }
}

/// The scroll position clamped to the last line.
pub open spec fn clamped(offset: usize, s: TokenSnapshotV) -> usize {
    if offset > line_count_spec(s) - 1 {
        (line_count_spec(s) - 1) as usize
    } else {
        offset
    }
}

impl TokenUsagePanel {
    pub fn new() -> (r: Self)
        ensures
            r@.snapshot.turn_count == 0,
            r@.snapshot.recent_turns.len() == 0,
            r@.snapshot.cumulative == (TokenRecord {
                input_tokens: 0,
                output_tokens: 0,
                cache_creation_input_tokens: 0,
                cache_read_input_tokens: 0,
            }),
            r@.scroll_offset == 0,
    {
        TokenUsagePanel { snapshot: TokenSnapshot::default(), scroll_offset: 0 }
    }

    pub fn set_snapshot(&mut self, snapshot: TokenSnapshot)
        ensures
            final(self)@ == (TokenUsageV { snapshot: snapshot@, ..old(self)@ }),
    {
        self.snapshot = snapshot;
    }

    /// Number of lines the panel shows.
    pub fn line_count(&self) -> (r: usize)
        ensures
            r == line_count_spec(self@.snapshot),
    {
        if self.snapshot.turn_count == 0 {
            1
        } else {
            7
        }
    }

    /// Keep the scroll position on a line that exists.
    pub fn clamp_scroll(&mut self)
        ensures
            final(self)@ == (TokenUsageV {
                scroll_offset: clamped(old(self)@.scroll_offset, old(self)@.snapshot),
                ..old(self)@
            }),
    {
        let max = self.line_count() - 1;
        if self.scroll_offset > max {
            self.scroll_offset = max;
        }
    }

    /// j/Down scrolls down (within the lines shown), k/Up scrolls up; no key yields an action.
    pub fn handle_key(&mut self, key: KeyEvent) -> (r: Option<Action>)
        ensures
            r is None,
            is_down(key.code) ==> final(self)@ == (TokenUsageV {
                scroll_offset: clamped(
                    if old(self)@.scroll_offset == usize::MAX {
                        usize::MAX
                    } else {
                        (old(self)@.scroll_offset + 1) as usize
                    },
                    old(self)@.snapshot,
                ),
                ..old(self)@
            }),
            is_up(key.code) ==> final(self)@ == (TokenUsageV {
                scroll_offset: if old(self)@.scroll_offset == 0 {
                    0
                } else {
                    (old(self)@.scroll_offset - 1) as usize
                },
                ..old(self)@
            }),
            !is_down(key.code) && !is_up(key.code) ==> final(self)@ == old(self)@,
    {
        match key.code {
            KeyCode::Char('j') | KeyCode::Down => {
                self.scroll_offset = self.scroll_offset.saturating_add(1);
                self.clamp_scroll();
                None
            },
            KeyCode::Char('k') | KeyCode::Up => {
                self.scroll_offset = self.scroll_offset.saturating_sub(1);
                None
            },
            _ => None,
        }
    }

    /// A new snapshot replaces the shown one.
    pub fn handle_event(&mut self, event: &AppEvent)
        ensures
            match *event {
                AppEvent::TokenUsageUpdated(s) => final(self)@ == (TokenUsageV {
                    snapshot: s@,
                    ..old(self)@
                }),
                _ => final(self)@ == old(self)@,
            },
    {
        if let AppEvent::TokenUsageUpdated(snapshot) = event {
            self.snapshot = snapshot.clone();
        }
    }
}

} // verus!
