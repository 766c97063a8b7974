//! Git status panel: the latest snapshot and a selected change kept within
//! the list of changes.

use vstd::prelude::*;

use crate::action::Action;
use crate::event::AppEvent;
use crate::input::{KeyCode, KeyEvent};
use crate::panel::workflow_map::{is_down, is_up};
use crate::parser::models::{
    change_views, default_git_snapshot, GitChange, GitChangeStatus, GitChangeV, GitCommitV, GitSnapshot, GitSnapshotV, GitWorktreeV,
};
use crate::text::{decimal, decimal_chars, push_all, push_str};
use crate::ui::theme::Icons;
use crate::ui::view::{
    blank, cat2, cat3, cat_chars, line1, line2, line3, line4, line_view, lines_view, push_line, span, span_of,
    sv, Span, SpanV, Tone,
};

verus! {

pub struct GitStatusPanel {
    pub snapshot: GitSnapshot,
    selected: Option<usize>,
}

pub ghost struct GitStatusV {
    pub snapshot: GitSnapshotV,
    pub selected: Option<usize>,
}

impl View for GitStatusPanel {
    type V = GitStatusV;

    closed spec fn view(&self) -> GitStatusV {
        GitStatusV { snapshot: self.snapshot@, selected: self.selected }
    }
}

/// A selection past the end of a non-empty list of `len` changes moves to its last change.
pub open spec fn clamp_selected(selected: Option<usize>, len: nat) -> Option<usize> {
    match selected {
        Some(s) => if s >= len && len > 0 {
            Some((len - 1) as usize)
        } else {
            selected
        },
        None => None,
    }
}

/// The selection after j/Down or k/Up over `len` changes.
pub open spec fn moved(selected: Option<usize>, len: nat, down: bool) -> Option<usize> {
    let cur: int = match selected {
        Some(s) => s as int,
        None => 0,
    };
    if down {
        Some((if cur + 1 > len - 1 { len - 1 } else { cur + 1 }) as usize)
    } else {
        Some((if cur == 0 { 0 } else { cur - 1 }) as usize)
    }
}

/// How a key changes the panel: j/Down and k/Up move the selection
/// (when there are changes); others leave it.
pub open spec fn git_on_key(p: GitStatusV, k: KeyCode) -> GitStatusV {
    let len = p.snapshot.changes.len();
    if len == 0 {
        p
    } else if is_down(k) {
        GitStatusV { selected: moved(p.selected, len, true), ..p }
    } else if is_up(k) {
        GitStatusV { selected: moved(p.selected, len, false), ..p }
    } else {
        p
    }
}

/// A new snapshot replaces the shown one; other events leave the panel.
pub open spec fn git_on_event(p: GitStatusV, e: AppEvent) -> GitStatusV {
    match e {
        AppEvent::GitStatusUpdated(s) => GitStatusV {
            snapshot: s@,
            selected: clamp_selected(p.selected, s@.changes.len()),
        },
        _ => p,
    }
}

impl GitStatusPanel {
    pub fn new() -> (r: Self)
        ensures
            r@ == (GitStatusV { snapshot: default_git_snapshot(), selected: None }),
    {
        GitStatusPanel { snapshot: GitSnapshot::default(), selected: None }
    }

    /// Show a new snapshot, keeping the selection within its changes.
    pub fn set_snapshot(&mut self, snapshot: GitSnapshot)
        ensures
            final(self)@ == (GitStatusV {
                snapshot: snapshot@,
                selected: clamp_selected(old(self)@.selected, snapshot@.changes.len()),
            }),
    {
        self.snapshot = snapshot;
        self.clamp_selection();
    }

    pub fn selected(&self) -> (r: Option<usize>)
        ensures
            r == self@.selected,
    {
        self.selected
    }

    /// Select a row (or none) directly.
    pub fn select(&mut self, selected: Option<usize>)
        ensures
            final(self)@ == (GitStatusV { selected: selected, ..old(self)@ }),
    {
        self.selected = selected;
    }

    pub fn clamp_scroll(&mut self)
        ensures
            final(self)@ == (GitStatusV {
                selected: clamp_selected(old(self)@.selected, old(self)@.snapshot.changes.len()),
                ..old(self)@
            }),
    {
        self.clamp_selection();
    }

    fn clamp_selection(&mut self)
        ensures
            final(self)@ == (GitStatusV {
                selected: clamp_selected(old(self)@.selected, old(self)@.snapshot.changes.len()),
                ..old(self)@
            }),
    {
        let len = self.snapshot.changes.len();
        if let Some(s) = self.selected {
            if s >= len && len > 0 {
                self.selected = Some(len - 1);
            }
        }
    }

    /// j/Down and k/Up move the selection within the changes; Enter selects.
    pub fn handle_key(&mut self, key: KeyEvent) -> (r: Option<Action>)
        ensures
            final(self)@ == git_on_key(old(self)@, key.code),
            (r matches Some(Action::Select)) <==> key.code == KeyCode::Enter,
            r is None <==> key.code != KeyCode::Enter,
    {
        let len = self.snapshot.changes.len();
        let cur = match self.selected {
            Some(s) => s,
            None => 0,
        };
        match key.code {
            KeyCode::Char('j') | KeyCode::Down => {
                if len > 0 {
                    self.selected = Some(if cur >= len - 1 { len - 1 } else { cur + 1 });
                }
                None
            },
            KeyCode::Char('k') | KeyCode::Up => {
                if len > 0 {
                    self.selected = Some(if cur == 0 { 0 } else { cur - 1 });
                }
                None
            },
            KeyCode::Enter => Some(Action::Select),
            _ => None,
        }
    }

    pub fn handle_event(&mut self, event: &AppEvent)
        ensures
            final(self)@ == git_on_event(old(self)@, *event),
    {
        if let AppEvent::GitStatusUpdated(snapshot) = event {
            self.set_snapshot(snapshot.clone());
        }
    }
}

// ---------------------------------------------------------------------
// What the panel shows
// ---------------------------------------------------------------------

/// Icon and tone of a change's status.
pub open spec fn status_look(st: GitChangeStatus) -> (Seq<char>, Tone) {
    match st {
        GitChangeStatus::Staged => ("S"@, Tone::Staged),
        GitChangeStatus::Unstaged => ("M"@, Tone::Unstaged),
        GitChangeStatus::Untracked => ("?"@, Tone::Untracked),
        GitChangeStatus::Conflict => ("C!"@, Tone::Conflict),
    }
}

/// A change's row: icon and path in the status's tone, then `+a -d` when
/// both counts are known.
pub open spec fn change_row(c: GitChangeV) -> Seq<SpanV> {
    let (icon, tone) = status_look(c.status);
    let diff = match (c.additions, c.deletions) {
        (Some(a), Some(d)) => " +"@ + decimal(a as nat) + " -"@ + decimal(d as nat),
        _ => Seq::empty(),
    };
    seq![sv(tone, "  "@ + icon + " "@), sv(tone, c.path), sv(Tone::Dim, diff)]
}

/// Branch, HEAD and the diff totals.
pub open spec fn git_header_spec(s: GitSnapshotV) -> Seq<Seq<SpanV>> {
    seq![
        seq![sv(Tone::Dim, "  Branch: "@), sv(Tone::CyanBold, s.branch)],
        seq![sv(Tone::Dim, "  HEAD:   "@), sv(Tone::Dim, s.head)],
        seq![
            sv(Tone::Dim, "  Diff:   "@),
            sv(Tone::Green, "+"@ + decimal(s.diff_stat.additions as nat)),
            sv(Tone::Plain, " / "@),
            sv(Tone::Red, "-"@ + decimal(s.diff_stat.deletions as nat)),
        ],
    ]
}

pub open spec fn commit_row(c: GitCommitV) -> Seq<SpanV> {
    seq![sv(Tone::Yellow, "    "@ + c.hash + " "@), sv(Tone::Dim, c.message)]
}

pub open spec fn worktree_row(w: GitWorktreeV) -> Seq<SpanV> {
    let b = match w.branch {
        Some(b) => b,
        None => "(detached)"@,
    };
    seq![sv(Tone::Dim, "    "@), sv(Tone::Cyan, b), sv(Tone::Dim, "  "@ + w.path)]
}

/// The recent commits, then the worktrees when there are any.
pub open spec fn git_bottom_spec(s: GitSnapshotV) -> Seq<Seq<SpanV>> {
    seq![seq![sv(Tone::Dim, "  Commits:"@)]] + s.commits.map_values(|c: GitCommitV| commit_row(c)) + if s.worktrees.len()
        > 0 {
        seq![Seq::<SpanV>::empty(), seq![sv(Tone::Dim, "  Worktrees:"@)]] + s.worktrees.map_values(
            |w: GitWorktreeV| worktree_row(w),
        )
    } else {
        Seq::empty()
    }
}

fn change_row_of(c: &GitChange) -> (r: Vec<Span>)
    ensures
        line_view(r@) == change_row(c@),
{
    let (icon, tone) = match c.status {
        GitChangeStatus::Staged => (Icons::staged(), Tone::Staged),
        GitChangeStatus::Unstaged => (Icons::unstaged(), Tone::Unstaged),
        GitChangeStatus::Untracked => (Icons::untracked(), Tone::Untracked),
        GitChangeStatus::Conflict => (Icons::conflict(), Tone::Conflict),
    };
    let mut diff: Vec<char> = Vec::new();
    match (c.additions, c.deletions) {
        (Some(a), Some(d)) => {
            push_str(&mut diff, " +");
            push_all(&mut diff, &decimal_chars(a as u64));
            push_str(&mut diff, " -");
            push_all(&mut diff, &decimal_chars(d as u64));
        },
        _ => {},
    }
    proof {
        match (c@.additions, c@.deletions) {
            (Some(a), Some(d)) => {
                assert(diff@ =~= " +"@ + decimal(a as nat) + " -"@ + decimal(d as nat));
            },
            _ => {
                assert(diff@ =~= Seq::<char>::empty());
            },
        }
    }
    line3(span_of(tone, &cat3("  ", icon, " ")), span(tone, c.path.as_str()), span_of(Tone::Dim, &diff))
}

/// Rows of the header section: branch, HEAD and the diff totals.
pub const HEADER_ROWS: u16 = 3;

/// Most commits the bottom section shows.
pub const SHOWN_COMMITS: usize = 5;

/// Heights of the header, change list and bottom sections of a panel
/// whose inner area is `inner_height` rows tall: the header takes three
/// rows; the bottom takes the shown commits (at most five) and two rows,
/// plus the worktrees and two rows where there are any; the change list
/// takes what is left, or nothing.
pub open spec fn section_heights_spec(s: GitSnapshotV, inner_height: u16) -> (u16, u16, u16) {
    let worktrees_h: int = if s.worktrees.len() == 0 { 0int } else { s.worktrees.len() + 2int };
    let shown: int = if s.commits.len() > SHOWN_COMMITS { SHOWN_COMMITS as int } else { s.commits.len() as int };
    let bottom_h: int = shown + 2 + worktrees_h;
    let rest: int = inner_height - (HEADER_ROWS + bottom_h);
    (HEADER_ROWS, (if rest > 0 { rest } else { 0 }) as u16, bottom_h as u16)
}

impl GitStatusPanel {
    /// Heights of the header, change list and bottom sections within an
    /// inner area of `inner_height` rows.
    pub fn section_heights(&self, inner_height: u16) -> (r: (u16, u16, u16))
        requires
            self@.snapshot.worktrees.len() + HEADER_ROWS + SHOWN_COMMITS + 4 <= u16::MAX,
        ensures
            r == section_heights_spec(self@.snapshot, inner_height),
    {
        let s = &self.snapshot;
        let wn = s.worktrees.len();
        let worktrees_h: u16 = if wn == 0 { 0 } else { wn as u16 + 2 };
        let shown: u16 = if s.commits.len() > SHOWN_COMMITS { SHOWN_COMMITS as u16 } else { s.commits.len() as u16 };
        let bottom_h: u16 = shown + 2 + worktrees_h;
        let top: u16 = HEADER_ROWS + bottom_h;
        let changes_h: u16 = if inner_height > top { inner_height - top } else { 0 };
        (HEADER_ROWS, changes_h, bottom_h)
    }

    /// Branch, HEAD and the diff totals, one line each.
    pub fn header_lines(&self) -> (r: Vec<Vec<Span>>)
        ensures
            lines_view(r@) == git_header_spec(self@.snapshot),
    {
        let s = &self.snapshot;
        let mut out: Vec<Vec<Span>> = Vec::new();
        push_line(&mut out, line2(span(Tone::Dim, "  Branch: "), span(Tone::CyanBold, s.branch.as_str())));
        push_line(&mut out, line2(span(Tone::Dim, "  HEAD:   "), span(Tone::Dim, s.head.as_str())));
        push_line(
            &mut out,
            line4(
                span(Tone::Dim, "  Diff:   "),
                span_of(Tone::Green, &cat_chars("+", &decimal_chars(s.diff_stat.additions as u64))),
                span(Tone::Plain, " / "),
                span_of(Tone::Red, &cat_chars("-", &decimal_chars(s.diff_stat.deletions as u64))),
            ),
        );
        assert(lines_view(out@) =~= git_header_spec(self@.snapshot));
        out
    }

    /// One row per change, in order.
    pub fn change_rows(&self) -> (r: Vec<Vec<Span>>)
        ensures
            lines_view(r@) == self@.snapshot.changes.map_values(|c: GitChangeV| change_row(c)),
    {
        let ch = &self.snapshot.changes;
        let mut out: Vec<Vec<Span>> = Vec::new();
        let mut i: usize = 0;
        while i < ch.len()
            invariant
                i <= ch@.len(),
                self@.snapshot.changes == change_views(ch@),
                lines_view(out@) == self@.snapshot.changes.take(i as int).map_values(|c: GitChangeV| change_row(c)),
            decreases ch.len() - i,
        {
            push_line(&mut out, change_row_of(&ch[i]));
            assert(self@.snapshot.changes.take(i + 1) =~= self@.snapshot.changes.take(i as int).push(ch@[i as int]@));
            assert(lines_view(out@) =~= self@.snapshot.changes.take(i + 1).map_values(|c: GitChangeV| change_row(c)));
            i = i + 1;
        }
        assert(self@.snapshot.changes.take(i as int) =~= self@.snapshot.changes);
        out
    }

    /// The recent commits, then the worktrees when there are any.
    pub fn bottom_lines(&self) -> (r: Vec<Vec<Span>>)
        ensures
            lines_view(r@) == git_bottom_spec(self@.snapshot),
    {
        let s = &self.snapshot;
        let ghost sv_ = self@.snapshot;
        let mut out: Vec<Vec<Span>> = Vec::new();
        push_line(&mut out, line1(span(Tone::Dim, "  Commits:")));
        let mut i: usize = 0;
        while i < s.commits.len()
            invariant
                i <= s.commits@.len(),
                sv_ == s@,
                lines_view(out@) == seq![seq![sv(Tone::Dim, "  Commits:"@)]] + sv_.commits.take(i as int).map_values(
                    |c: GitCommitV| commit_row(c),
                ),
            decreases s.commits.len() - i,
        {
            let c = &s.commits[i];
            push_line(
                &mut out,
                line2(span_of(Tone::Yellow, &cat3("    ", c.hash.as_str(), " ")), span(Tone::Dim, c.message.as_str())),
            );
            assert(sv_.commits.take(i + 1) =~= sv_.commits.take(i as int).push(s.commits@[i as int]@));
            assert(lines_view(out@) =~= seq![seq![sv(Tone::Dim, "  Commits:"@)]] + sv_.commits.take(i + 1).map_values(
                |c: GitCommitV| commit_row(c),
            ));
            i = i + 1;
        }
        assert(sv_.commits.take(i as int) =~= sv_.commits);
        let ghost head = lines_view(out@);
        if s.worktrees.len() > 0 {
            push_line(&mut out, blank());
            push_line(&mut out, line1(span(Tone::Dim, "  Worktrees:")));
            let ghost mid = lines_view(out@);
            let mut j: usize = 0;
            while j < s.worktrees.len()
                invariant
                    j <= s.worktrees@.len(),
                    sv_ == s@,
                    lines_view(out@) == mid + sv_.worktrees.take(j as int).map_values(|w: GitWorktreeV| worktree_row(w)),
                decreases s.worktrees.len() - j,
            {
                let w = &s.worktrees[j];
                let b = match &w.branch {
                    Some(b) => span(Tone::Cyan, b.as_str()),
                    None => span(Tone::Cyan, "(detached)"),
                };
                push_line(&mut out, line3(span(Tone::Dim, "    "), b, span_of(Tone::Dim, &cat2("  ", w.path.as_str()))));
                assert(sv_.worktrees.take(j + 1) =~= sv_.worktrees.take(j as int).push(s.worktrees@[j as int]@));
                assert(lines_view(out@) =~= mid + sv_.worktrees.take(j + 1).map_values(|w: GitWorktreeV| worktree_row(w)));
                j = j + 1;
            }
            assert(sv_.worktrees.take(j as int) =~= sv_.worktrees);
            assert(lines_view(out@) =~= head + (seq![Seq::<SpanV>::empty(), seq![sv(Tone::Dim, "  Worktrees:"@)]]
                + sv_.worktrees.map_values(|w: GitWorktreeV| worktree_row(w))));
        } else {
            assert(lines_view(out@) =~= head + Seq::<Seq<SpanV>>::empty());
        }
        out
    }
}

} // verus!
