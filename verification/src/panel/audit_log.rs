//! Audit log panel: a bounded buffer of the latest entries, a selected
//! row that follows new entries while auto-scroll is on, and the scrollbar
//! position that goes with it.

use vstd::prelude::*;

use crate::action::Action;
use crate::event::AppEvent;
use crate::input::{KeyCode, KeyEvent};
use crate::panel::workflow_map::{is_down, is_up};
use crate::parser::models::{audit_views, AuditEntry, AuditEntryV};
use crate::text::{
    chars_of, contains_chars, contains_str, parse_uint, parse_uint_chars, starts_with, starts_with_chars,
};
use crate::ui::view::{cat3, cat_chars, line_view, span, span_of, sv, Span, SpanV, Tone};

verus! {

broadcast use vstd::seq_lib::group_seq_properties;

pub const DEFAULT_BUFFER_CAP: usize = 1000;

pub const MIN_BUFFER_CAP: usize = 100;

pub const MAX_BUFFER_CAP: usize = 100_000;

/// The buffer size a `DEVFLOW_TUI_LOG_BUFFER` setting asks for: its number
/// when it is one, else the default.
pub open spec fn buffer_cap_setting_spec(value: Option<Seq<char>>) -> usize {
    match value {
        Some(v) => match parse_uint(v, usize::MAX as nat) {
            Some(n) => n as usize,
            None => DEFAULT_BUFFER_CAP,
        },
        None => DEFAULT_BUFFER_CAP,
    }
}

pub fn buffer_cap_setting(value: Option<&str>) -> (r: usize)
    ensures
        r == buffer_cap_setting_spec(match value {
            Some(v) => Some(v@),
            None => None,
        }),
{
    match value {
        Some(v) => match parse_uint_chars(&chars_of(v), usize::MAX as u64) {
            Some(n) => n as usize,
            None => DEFAULT_BUFFER_CAP,
        },
        None => DEFAULT_BUFFER_CAP,
    }
}

pub struct AuditLogPanel {
    entries: Vec<AuditEntry>,
    selected: Option<usize>,
    scroll_len: usize,
    scroll_position: usize,
    auto_scroll: bool,
    buffer_cap: usize,
}

pub ghost struct AuditLogV {
    pub entries: Seq<AuditEntryV>,
    /// The highlighted row of the list.
    pub selected: Option<usize>,
    /// Length of the content the scrollbar spans.
    pub scroll_len: usize,
    /// Position of the scrollbar thumb.
    pub scroll_position: usize,
    pub auto_scroll: bool,
    pub buffer_cap: usize,
}

impl View for AuditLogPanel {
    type V = AuditLogV;

    closed spec fn view(&self) -> AuditLogV {
        AuditLogV {
            entries: audit_views(self.entries@),
            selected: self.selected,
            scroll_len: self.scroll_len,
            scroll_position: self.scroll_position,
            auto_scroll: self.auto_scroll,
            buffer_cap: self.buffer_cap,
        }
    }
}

/// The buffer holds at most `buffer_cap` entries, and the cap lies between
/// `MIN_BUFFER_CAP` and `MAX_BUFFER_CAP`.
pub open spec fn buffer_bounded(p: AuditLogV) -> bool {
    MIN_BUFFER_CAP <= p.buffer_cap <= MAX_BUFFER_CAP && p.entries.len() <= p.buffer_cap
}

/// `cap` clamped into `[MIN_BUFFER_CAP, MAX_BUFFER_CAP]`.
pub open spec fn clamp_cap(cap: usize) -> usize {
    if cap < MIN_BUFFER_CAP {
        MIN_BUFFER_CAP
    } else if cap > MAX_BUFFER_CAP {
        MAX_BUFFER_CAP
    } else {
        cap
    }
}

/// The last `cap` entries (all of them when there are fewer).
pub open spec fn keep_last<A>(s: Seq<A>, cap: nat) -> Seq<A> {
    if s.len() > cap {
        s.skip(s.len() - cap)
    } else {
        s
    }
}

/// The panel after a new list of entries: the buffer keeps the latest
/// `buffer_cap`; with auto-scroll on, the last row is selected; the
/// scrollbar spans the buffer at the selected row.
pub open spec fn with_entries(p: AuditLogV, entries: Seq<AuditEntryV>) -> AuditLogV {
    let kept = keep_last(entries, p.buffer_cap as nat);
    let sel = if p.auto_scroll && kept.len() > 0 {
        Some((kept.len() - 1) as usize)
    } else {
        p.selected
    };
    AuditLogV {
        entries: kept,
        selected: sel,
        scroll_len: kept.len() as usize,
        scroll_position: match sel {
            Some(s) => s,
            None => 0,
        },
        ..p
    }
}

/// How a key changes the panel: j/Down and k/Up move the selection
/// (moving up stops auto-scroll, reaching the last row resumes it); `G`
/// jumps to the last row and resumes auto-scroll.
pub open spec fn audit_on_key(p: AuditLogV, k: KeyCode) -> AuditLogV {
    let len = p.entries.len();
    let cur: int = match p.selected {
        Some(s) => s as int,
        None => 0,
    };
    if len == 0 {
        p
    } else if is_down(k) {
        let next = if cur + 1 > len - 1 { len - 1 } else { cur + 1 };
        AuditLogV {
            selected: Some(next as usize),
            auto_scroll: next == len - 1,
            scroll_position: next as usize,
            ..p
        }
    } else if is_up(k) {
        let next = if cur == 0 { 0 } else { cur - 1 };
        AuditLogV {
            selected: Some(next as usize),
            auto_scroll: false,
            scroll_position: next as usize,
            ..p
        }
    } else if k == KeyCode::Char('G') {
        AuditLogV {
            selected: Some((len - 1) as usize),
            auto_scroll: true,
            scroll_position: (len - 1) as usize,
            ..p
        }
    } else {
        p
    }
}

/// New entries replace the buffered ones; other events leave the panel.
pub open spec fn audit_on_event(p: AuditLogV, e: AppEvent) -> AuditLogV {
    match e {
        AppEvent::AuditLogAppended(entries) => with_entries(p, audit_views(entries@)),
        _ => p,
    }
}

/// How a choice is coloured: approvals (starting with `B` or containing
/// `Approve`) as done, skips as skipped, anything else as active.
#[derive(Debug, Clone, Copy, PartialEq, Eq, Structural)]
pub enum ChoiceTone {
    Done,
    Skipped,
    Active,
}

pub open spec fn choice_tone_spec(c: Seq<char>) -> ChoiceTone {
    if starts_with(c, "B"@) || contains_str(c, "Approve"@) {
        ChoiceTone::Done
    } else if contains_str(c, "Skip"@) || contains_str(c, "skip"@) {
        ChoiceTone::Skipped
    } else {
        ChoiceTone::Active
    }
}

pub fn choice_tone(choice: &str) -> (r: ChoiceTone)
    ensures
        r == choice_tone_spec(choice@),
{
    let c = chars_of(choice);
    if starts_with_chars(&c, &chars_of("B")) || contains_chars(&c, &chars_of("Approve")) {
        ChoiceTone::Done
    } else if contains_chars(&c, &chars_of("Skip")) || contains_chars(&c, &chars_of("skip")) {
        ChoiceTone::Skipped
    } else {
        ChoiceTone::Active
    }
}

impl AuditLogPanel {
    #[verifier::type_invariant]
    spec fn bounded(self) -> bool {
        buffer_bounded(self@)
    }

    /// An empty panel whose buffer holds `cap` entries, clamped into
    /// `[MIN_BUFFER_CAP, MAX_BUFFER_CAP]`.
    pub fn new_with_cap(cap: usize) -> (r: Self)
        ensures
            r@ == (AuditLogV {
                entries: Seq::empty(),
                selected: None,
                scroll_len: 0,
                scroll_position: 0,
                auto_scroll: true,
                buffer_cap: clamp_cap(cap),
            }),
    {
        let c = if cap < MIN_BUFFER_CAP {
            MIN_BUFFER_CAP
        } else if cap > MAX_BUFFER_CAP {
            MAX_BUFFER_CAP
        } else {
            cap
        };
        let r = AuditLogPanel {
            entries: Vec::new(),
            selected: None,
            scroll_len: 0,
            scroll_position: 0,
            auto_scroll: true,
            buffer_cap: c,
        };
        assert(r@.entries =~= Seq::<AuditEntryV>::empty());
        r
    }

    /// The buffered entries, oldest first; never more than the cap.
    pub fn entries(&self) -> (r: &Vec<AuditEntry>)
        ensures
            audit_views(r@) == self@.entries,
            buffer_bounded(self@),
    {
        proof {
            use_type_invariant(self);
        }
        &self.entries
    }

    pub fn selected(&self) -> (r: Option<usize>)
        ensures
            r == self@.selected,
    {
        self.selected
    }

    pub fn auto_scroll(&self) -> (r: bool)
        ensures
            r == self@.auto_scroll,
    {
        self.auto_scroll
    }

    pub fn buffer_cap(&self) -> (r: usize)
        ensures
            r == self@.buffer_cap,
    {
        self.buffer_cap
    }

    /// Scrollbar content length and thumb position.
    pub fn scrollbar(&self) -> (r: (usize, usize))
        ensures
            r == (self@.scroll_len, self@.scroll_position),
    {
        (self.scroll_len, self.scroll_position)
    }

    /// Replace the entries (keeping the latest `buffer_cap` of them).
    pub fn set_entries(&mut self, entries: Vec<AuditEntry>)
        ensures
            final(self)@ == with_entries(old(self)@, audit_views(entries@)),
            buffer_bounded(final(self)@),
    {
        proof {
            use_type_invariant(&*self);
        }
        let ghost ev = audit_views(entries@);
        let kept = Self::enforce_cap(entries, self.buffer_cap);
        assert(audit_views(kept@) =~= keep_last(ev, self.buffer_cap as nat));
        let len = kept.len();
        let sel = if self.auto_scroll && len > 0 {
            Some(len - 1)
        } else {
            self.selected
        };
        let pos = match sel {
            Some(s) => s,
            None => 0,
        };
        let mut prev = AuditLogPanel::new_with_cap(self.buffer_cap);
        core::mem::swap(self, &mut prev);
        *self = AuditLogPanel {
            entries: kept,
            selected: sel,
            scroll_len: len,
            scroll_position: pos,
            auto_scroll: prev.auto_scroll,
            buffer_cap: prev.buffer_cap,
        };
    }

    /// Move the selection onto the last entry when it lies past it.
    pub fn clamp_scroll(&mut self)
        ensures
            final(self)@ == match old(self)@.selected {
                Some(s) => if s >= old(self)@.entries.len() && old(self)@.entries.len() > 0 {
                    AuditLogV {
                        selected: Some((old(self)@.entries.len() - 1) as usize),
                        ..old(self)@
                    }
                } else {
                    old(self)@
                },
                None => old(self)@,
            },
    {
        proof {
            use_type_invariant(&*self);
        }
        let len = self.entries.len();
        if let Some(s) = self.selected {
            if s >= len && len > 0 {
                self.selected = Some(len - 1);
            }
        }
    }

    /// The last `cap` entries.
    fn enforce_cap(entries: Vec<AuditEntry>, cap: usize) -> (r: Vec<AuditEntry>)
        ensures
            r@ == keep_last(entries@, cap as nat),
    {
        if entries.len() > cap {
            let excess = entries.len() - cap;
            let mut src = entries;
            src.split_off(excess)
        } else {
            entries
        }
    }

    pub fn handle_key(&mut self, key: KeyEvent) -> (r: Option<Action>)
        ensures
            r is None,
            final(self)@ == audit_on_key(old(self)@, key.code),
    {
        proof {
            use_type_invariant(&*self);
        }
        let len = self.entries.len();
        if len == 0 {
            return None;
        }
        let cur = match self.selected {
            Some(s) => s,
            None => 0,
        };
        match key.code {
            KeyCode::Char('j') | KeyCode::Down => {
                let next = if cur >= len - 1 {
                    len - 1
                } else {
                    cur + 1
                };
                self.selected = Some(next);
                self.auto_scroll = next == len - 1;
                self.scroll_position = next;
            },
            KeyCode::Char('k') | KeyCode::Up => {
                let next = if cur == 0 {
                    0
                } else {
                    cur - 1
                };
                self.selected = Some(next);
                self.auto_scroll = false;
                self.scroll_position = next;
            },
            KeyCode::Char('G') => {
                self.selected = Some(len - 1);
                self.auto_scroll = true;
                self.scroll_position = len - 1;
            },
            _ => {},
        }
        None
    }

    pub fn handle_event(&mut self, event: &AppEvent)
        ensures
            final(self)@ == audit_on_event(old(self)@, *event),
    {
        if let AppEvent::AuditLogAppended(entries) = event {
            let copy = entries.clone();
            assert(audit_views(copy@) =~= audit_views(entries@));
            self.set_entries(copy);
        }
    }
}

// ---------------------------------------------------------------------
// Laws
// ---------------------------------------------------------------------

/// The buffer holds at most `buffer_cap` entries: the latest ones, in
/// order, the newest always kept; while auto-scroll is on the newest is the
/// selected row.
pub proof fn lemma_buffer_keeps_latest(p: AuditLogV, entries: Seq<AuditEntryV>)
    requires
        p.buffer_cap > 0,
    ensures
        ({
            let q = with_entries(p, entries);
            &&& q.entries.len() <= p.buffer_cap
            &&& q.entries.len() == if entries.len() > p.buffer_cap { p.buffer_cap as int } else { entries.len() as int }
            &&& forall|i: int| 0 <= i < q.entries.len() ==> #[trigger] q.entries[i] == entries[entries.len() - q.entries.len() + i]
            &&& entries.len() > 0 ==> q.entries.last() == entries.last()
            &&& (p.auto_scroll && entries.len() > 0) ==> q.selected == Some((q.entries.len() - 1) as usize)
        }),
{
}

// ---------------------------------------------------------------------
// What the panel shows
// ---------------------------------------------------------------------

/// The tone a choice is drawn in.
pub open spec fn tone_of(t: ChoiceTone) -> Tone {
    match t {
        ChoiceTone::Done => Tone::Done,
        ChoiceTone::Skipped => Tone::Skipped,
        ChoiceTone::Active => Tone::Active,
    }
}

/// One row of the log: timestamp, stage and `→ choice` where present; an
/// entry with none of them shows its raw line.
pub open spec fn entry_row(e: AuditEntryV) -> Seq<SpanV> {
    let ts = match e.timestamp {
        Some(t) => seq![sv(Tone::Timestamp, "  "@ + t + " "@)],
        None => Seq::empty(),
    };
    let st = match e.stage {
        Some(s) => seq![sv(Tone::Bold, s)],
        None => Seq::empty(),
    };
    let ch = match e.choice {
        Some(c) => seq![sv(Tone::Dim, " → "@), sv(tone_of(choice_tone_spec(c)), c)],
        None => Seq::empty(),
    };
    let all = ts + st + ch;
    if all.len() == 0 {
        seq![sv(Tone::Dim, "  "@ + e.raw_line)]
    } else {
        all
    }
}

impl AuditLogPanel {
    /// The spans of one log row.
    pub fn format_entry(e: &AuditEntry) -> (r: Vec<Span>)
        ensures
            line_view(r@) == entry_row(e@),
    {
        let mut out: Vec<Span> = Vec::new();
        let ghost ts = match e@.timestamp {
            Some(t) => seq![sv(Tone::Timestamp, "  "@ + t + " "@)],
            None => Seq::<SpanV>::empty(),
        };
        let ghost st = match e@.stage {
            Some(s) => seq![sv(Tone::Bold, s)],
            None => Seq::<SpanV>::empty(),
        };
        let ghost ch = match e@.choice {
            Some(c) => seq![sv(Tone::Dim, " → "@), sv(tone_of(choice_tone_spec(c)), c)],
            None => Seq::<SpanV>::empty(),
        };
        if let Some(t) = &e.timestamp {
            out.push(span_of(Tone::Timestamp, &cat3("  ", t.as_str(), " ")));
        }
        assert(line_view(out@) =~= ts);
        if let Some(st) = &e.stage {
            out.push(span(Tone::Bold, st.as_str()));
        }
        assert(line_view(out@) =~= ts + st);
        if let Some(c) = &e.choice {
            out.push(span(Tone::Dim, " → "));
            let tone = match choice_tone(c.as_str()) {
                ChoiceTone::Done => Tone::Done,
                ChoiceTone::Skipped => Tone::Skipped,
                ChoiceTone::Active => Tone::Active,
            };
            out.push(span(tone, c.as_str()));
        }
        assert(line_view(out@) =~= ts + st + ch);
        if out.len() == 0 {
            out.push(span_of(Tone::Dim, &cat_chars("  ", &chars_of(e.raw_line.as_str()))));
            assert(line_view(out@) =~= seq![sv(Tone::Dim, "  "@ + e@.raw_line)]);
        }
        out
    }
}

} // verus!
