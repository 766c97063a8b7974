//! Agent status panel: the history of sub-agents reported by the hooks,
//! with at most one running entry per agent id, a bounded history, and
//! time-outs for agents that never report their end.
//!
//! Instants are nanoseconds on a monotonic clock supplied by the caller.

use vstd::prelude::*;

use crate::action::Action;
use crate::event::AppEvent;
use crate::input::{KeyCode, KeyEvent};
use crate::panel::audit_log::keep_last;
use crate::panel::workflow_map::{is_down, is_up};
use crate::text::{chars_of, decimal, decimal_chars, eq_chars, push_all, push_str, string_of};
use crate::panel::git_status::moved;
use crate::ui::theme::Icons;
use crate::ui::view::{
    blank, cat2, cat3, cat_chars, line1, line3, lines_view, line_view, pad_right, pad_right_chars, push_line, span, span_of, sv, Span,
    SpanV, Tone, decimal_u128,
};

verus! {

broadcast use vstd::seq_lib::group_seq_properties;

/// An agent running longer than this (in nanoseconds, 60 s) without a stop is timed out.
pub const ORPHAN_TIMEOUT_NANOS: u128 = 60_000_000_000;

/// Entries kept in the history.
pub const MAX_HISTORY: usize = 100;

#[derive(Debug, Clone, Copy, PartialEq, Eq, Structural)]
pub enum AgentState {
    Running { started: u128 },
    Done,
    Timeout,
}

#[derive(Debug)]
pub struct AgentEntry {
    pub seq: u64,
    pub agent_id: String,
    pub agent_type: String,
    pub state: AgentState,
}

pub ghost struct AgentEntryV {
    pub seq: u64,
    pub agent_id: Seq<char>,
    pub agent_type: Seq<char>,
    pub state: AgentState,
}

impl View for AgentEntry {
    type V = AgentEntryV;

    open spec fn view(&self) -> AgentEntryV {
        AgentEntryV {
            seq: self.seq,
            agent_id: self.agent_id@,
            agent_type: self.agent_type@,
            state: self.state,
        }
    }
}

pub open spec fn agent_views(v: Seq<AgentEntry>) -> Seq<AgentEntryV> {
    v.map_values(|e: AgentEntry| e@)
}

pub struct AgentStatusPanel {
    agents: Vec<AgentEntry>,
    next_seq: u64,
    selected: Option<usize>,
    hooks_active: bool,
}

pub ghost struct AgentStatusV {
    pub agents: Seq<AgentEntryV>,
    pub next_seq: u64,
    pub selected: Option<usize>,
    pub hooks_active: bool,
}

impl View for AgentStatusPanel {
    type V = AgentStatusV;

    closed spec fn view(&self) -> AgentStatusV {
        AgentStatusV {
            agents: agent_views(self.agents@),
            next_seq: self.next_seq,
            selected: self.selected,
            hooks_active: self.hooks_active,
        }
    }
}

pub open spec fn is_running(e: AgentEntryV) -> bool {
    e.state is Running
}

/// At most one running entry per agent id, and a bounded history.
pub open spec fn agents_wf(a: Seq<AgentEntryV>) -> bool {
    &&& a.len() <= MAX_HISTORY
    &&& forall|i: int, j: int|
        0 <= i < a.len() && 0 <= j < a.len() && i != j && is_running(#[trigger] a[i])
            && is_running(#[trigger] a[j]) ==> a[i].agent_id != a[j].agent_id
}

/// The running entry of `id`, if any, marked done.
pub open spec fn mark_done(a: Seq<AgentEntryV>, id: Seq<char>) -> Seq<AgentEntryV> {
    a.map_values(
        |e: AgentEntryV|
            if is_running(e) && e.agent_id == id {
                AgentEntryV { state: AgentState::Done, ..e }
            } else {
                e
            },
    )
}

/// Whether an agent started at `started` has timed out at `now`.
pub open spec fn timed_out(started: u128, now: u128) -> bool {
    now >= started && now - started >= ORPHAN_TIMEOUT_NANOS
}

/// Every running entry that has timed out, marked so.
pub open spec fn mark_timeouts(a: Seq<AgentEntryV>, now: u128) -> Seq<AgentEntryV> {
    a.map_values(
        |e: AgentEntryV|
            match e.state {
                AgentState::Running { started } => if timed_out(started, now) {
                    AgentEntryV { state: AgentState::Timeout, ..e }
                } else {
                    e
                },
                _ => e,
            },
    )
}

/// The history after `id` starts at `now`: a running entry of the same id
/// is marked done, the new entry is appended, and the oldest entries beyond
/// `MAX_HISTORY` are dropped.
pub open spec fn started_spec(p: AgentStatusV, id: Seq<char>, ty: Seq<char>, now: u128) -> AgentStatusV {
    AgentStatusV {
        agents: keep_last(
            mark_done(p.agents, id).push(
                AgentEntryV {
                    seq: p.next_seq,
                    agent_id: id,
                    agent_type: ty,
                    state: AgentState::Running { started: now },
                },
            ),
            MAX_HISTORY as nat,
        ),
        next_seq: (p.next_seq + 1) as u64,
        ..p
    }
}

pub open spec fn running_count_spec(a: Seq<AgentEntryV>) -> nat
    decreases a.len(),
{
    if a.len() == 0 {
        0
    } else {
        running_count_spec(a.drop_last()) + if is_running(a.last()) {
            1nat
        } else {
            0nat
        }
    }
}

/// How the panel answers an event received at `now`.
pub open spec fn agent_on_event(p: AgentStatusV, e: AppEvent, now: u128) -> AgentStatusV {
    match e {
        AppEvent::AgentStarted { agent_id, agent_type } => started_spec(p, agent_id@, agent_type@, now),
        AppEvent::AgentStopped { agent_id } => AgentStatusV { agents: mark_done(p.agents, agent_id@), ..p },
        AppEvent::HooksServerStarted { .. } => AgentStatusV { hooks_active: true, ..p },
        AppEvent::HooksServerFailed { .. } => AgentStatusV { hooks_active: false, ..p },
        _ => p,
    }
}

/// How a key changes the panel: j/Down and k/Up move the selection
/// within the history (when there is one); others leave it.
pub open spec fn agent_on_key(p: AgentStatusV, k: KeyCode) -> AgentStatusV {
    let len = p.agents.len();
    if len == 0 {
        p
    } else if is_down(k) {
        AgentStatusV { selected: moved(p.selected, len, true), ..p }
    } else if is_up(k) {
        AgentStatusV { selected: moved(p.selected, len, false), ..p }
    } else {
        p
    }
}

/// Whole seconds an agent has run at `now` (0 if `now` is earlier).
pub open spec fn elapsed_secs_spec(started: u128, now: u128) -> int {
    if now >= started {
        (now - started) / 1_000_000_000
    } else {
        0
    }
}

pub fn elapsed_secs(started: u128, now: u128) -> (r: u128)
    ensures
        r == elapsed_secs_spec(started, now),
{
    if now >= started {
        (now - started) / 1_000_000_000
    } else {
        0
    }
}

impl AgentStatusPanel {
    #[verifier::type_invariant]
    spec fn well_formed(self) -> bool {
        agents_wf(self@.agents)
    }

    pub fn new() -> (r: Self)
        ensures
            r@ == (AgentStatusV {
                agents: Seq::empty(),
                next_seq: 0,
                selected: None,
                hooks_active: false,
            }),
    {
        let r = AgentStatusPanel { agents: Vec::new(), next_seq: 0, selected: None, hooks_active: false };
        assert(r@.agents =~= Seq::<AgentEntryV>::empty());
        r
    }

    pub fn set_hooks_active(&mut self, active: bool)
        ensures
            final(self)@ == (AgentStatusV { hooks_active: active, ..old(self)@ }),
    {
        proof {
            use_type_invariant(&*self);
        }
        self.hooks_active = active;
    }

    /// The history, oldest first; never more than `MAX_HISTORY` entries and
    /// never two running entries with the same id.
    pub fn agents(&self) -> (r: &Vec<AgentEntry>)
        ensures
            agent_views(r@) == self@.agents,
            agents_wf(self@.agents),
    {
        proof {
            use_type_invariant(self);
        }
        &self.agents
    }

    pub fn hooks_active(&self) -> (r: bool)
        ensures
            r == self@.hooks_active,
    {
        self.hooks_active
    }

    pub fn selected(&self) -> (r: Option<usize>)
        ensures
            r == self@.selected,
    {
        self.selected
    }

    /// The sequence number the next agent will get.
    pub fn next_seq(&self) -> (r: u64)
        ensures
            r == self@.next_seq,
    {
        self.next_seq
    }

    fn find_running(&self, agent_id: &str) -> (r: Option<usize>)
        ensures
            match r {
                Some(i) => i < self@.agents.len() && is_running(self@.agents[i as int])
                    && self@.agents[i as int].agent_id == agent_id@,
                None => forall|i: int|
                    0 <= i < self@.agents.len() ==> !(is_running(#[trigger] self@.agents[i])
                        && self@.agents[i].agent_id == agent_id@),
            },
    {
        let id = chars_of(agent_id);
        let mut i: usize = 0;
        while i < self.agents.len()
            invariant
                i <= self.agents@.len(),
                id@ == agent_id@,
                forall|j: int|
                    0 <= j < i ==> !(is_running(#[trigger] self@.agents[j])
                        && self@.agents[j].agent_id == agent_id@),
            decreases self.agents.len() - i,
        {
            let e = &self.agents[i];
            let running = match e.state {
                AgentState::Running { .. } => true,
                _ => false,
            };
            assert(self@.agents[i as int] == e@);
            if running && eq_chars(&chars_of(e.agent_id.as_str()), &id) {
                return Some(i);
            }
            i = i + 1;
        }
        None
    }

    /// Mark the running entry of `agent_id`, if any, as done.
    fn agent_stopped(&mut self, agent_id: &str)
        ensures
            final(self)@ == (AgentStatusV { agents: mark_done(old(self)@.agents, agent_id@), ..old(self)@ }),
    {
        proof {
            use_type_invariant(&*self);
        }
        let ghost a = self@.agents;
        match self.find_running(agent_id) {
            Some(i) => {
                let mut agents: Vec<AgentEntry> = Vec::new();
                core::mem::swap(&mut agents, &mut self.agents);
                let ghost before = agent_views(agents@);
                let e = agents.remove(i);
                let done = AgentEntry { seq: e.seq, agent_id: e.agent_id, agent_type: e.agent_type, state: AgentState::Done };
                agents.insert(i, done);
                proof {
                    assert forall|j: int| 0 <= j < a.len() && j != i implies !(is_running(#[trigger] a[j])
                        && a[j].agent_id == agent_id@) by {
                        assert(is_running(a[i as int]));
                    }
                    assert(agent_views(agents@) =~= mark_done(a, agent_id@));
                }
                self.agents = agents;
            },
            None => {
                assert(mark_done(a, agent_id@) =~= a);
            },
        }
    }

    /// Record that `agent_id` started at `now` (see `started_spec`).
    fn agent_started(&mut self, agent_id: String, agent_type: String, now: u128)
        requires
            old(self)@.next_seq < u64::MAX,
        ensures
            final(self)@ == started_spec(old(self)@, agent_id@, agent_type@, now),
    {
        proof {
            use_type_invariant(&*self);
        }
        self.agent_stopped(agent_id.as_str());
        let ghost marked = self@.agents;
        let seq = self.next_seq;
        let entry = AgentEntry { seq, agent_id, agent_type, state: AgentState::Running { started: now } };
        let ghost ev = entry@;
        let mut agents: Vec<AgentEntry> = Vec::new();
        core::mem::swap(&mut agents, &mut self.agents);
        agents.push(entry);
        proof {
            assert(agent_views(agents@) =~= marked.push(ev));
        }
        let kept = if agents.len() > MAX_HISTORY {
            let excess = agents.len() - MAX_HISTORY;
            agents.split_off(excess)
        } else {
            agents
        };
        let ghost kv = agent_views(kept@);
        proof {
            let full = marked.push(ev);
            assert(kv =~= keep_last(full, MAX_HISTORY as nat));
            assert forall|i: int, j: int|
                0 <= i < kv.len() && 0 <= j < kv.len() && i != j && is_running(#[trigger] kv[i])
                    && is_running(#[trigger] kv[j]) implies kv[i].agent_id != kv[j].agent_id by {
                let off = full.len() - kv.len();
                assert(kv[i] == full[i + off]);
                assert(kv[j] == full[j + off]);
                if i + off < marked.len() && j + off < marked.len() {
                } else if i + off < marked.len() {
                    assert(full[i + off] == marked[i + off]);
                    assert(!(is_running(marked[i + off]) && marked[i + off].agent_id == ev.agent_id));
                } else {
                    assert(full[j + off] == marked[j + off]);
                    assert(!(is_running(marked[j + off]) && marked[j + off].agent_id == ev.agent_id));
                }
            }
        }
        self.agents = kept;
        self.next_seq = seq + 1;
    }

    /// Time out every running agent older than the orphan limit at `now`;
    /// reports whether any was timed out.
    pub fn check_timeouts(&mut self, now: u128) -> (r: bool)
        ensures
            final(self)@ == (AgentStatusV { agents: mark_timeouts(old(self)@.agents, now), ..old(self)@ }),
            r == exists|i: int| 0 <= i < old(self)@.agents.len() && #[trigger] mark_timeouts(old(self)@.agents, now)[i] != old(self)@.agents[i],
    {
        proof {
            use_type_invariant(&*self);
        }
        let ghost a = self@.agents;
        let mut agents: Vec<AgentEntry> = Vec::new();
        core::mem::swap(&mut agents, &mut self.agents);
        let n = agents.len();
        let mut changed = false;
        let mut i: usize = 0;
        while i < n
            invariant
                i <= n,
                n == a.len(),
                agents@.len() == n,
                forall|j: int| 0 <= j < i ==> #[trigger] agent_views(agents@)[j] == mark_timeouts(a, now)[j],
                forall|j: int| i <= j < n ==> #[trigger] agent_views(agents@)[j] == a[j],
                changed == exists|j: int| 0 <= j < i && #[trigger] mark_timeouts(a, now)[j] != a[j],
            decreases n - i,
        {
            assert(agent_views(agents@)[i as int] == agents@[i as int]@);
            let timed = match agents[i].state {
                AgentState::Running { started } => now >= started && now - started >= ORPHAN_TIMEOUT_NANOS,
                _ => false,
            };
            if timed {
                let e = &agents[i];
                let ne = AgentEntry {
                    seq: e.seq,
                    agent_id: e.agent_id.clone(),
                    agent_type: e.agent_type.clone(),
                    state: AgentState::Timeout,
                };
                let ghost pre_raw = agents@;
                agents.set(i, ne);
                changed = true;
                proof {
                    assert forall|j: int| 0 <= j < n && j != i implies #[trigger] agent_views(agents@)[j]
                        == agent_views(pre_raw)[j] by {
                        assert(agents@[j] == pre_raw[j]);
                    }
                    assert(mark_timeouts(a, now)[i as int] != a[i as int]);
                }
            }
            proof {
                assert(agent_views(agents@)[i as int] == mark_timeouts(a, now)[i as int]);
                if !timed {
                    assert(mark_timeouts(a, now)[i as int] == a[i as int]);
                }
            }
            i = i + 1;
        }
        proof {
            let m = mark_timeouts(a, now);
            let v = agent_views(agents@);
            assert(v =~= m);
            assert forall|x: int, y: int|
                0 <= x < v.len() && 0 <= y < v.len() && x != y && is_running(#[trigger] v[x])
                    && is_running(#[trigger] v[y]) implies v[x].agent_id != v[y].agent_id by {
                assert(is_running(a[x]) && is_running(a[y]));
            }
        }
        self.agents = agents;
        changed
    }

    /// Number of running agents.
    pub fn running_count(&self) -> (r: usize)
        ensures
            r == running_count_spec(self@.agents),
    {
        let mut c: usize = 0;
        let mut i: usize = 0;
        while i < self.agents.len()
            invariant
                i <= self.agents@.len(),
                c == running_count_spec(self@.agents.take(i as int)),
                c <= i,
            decreases self.agents.len() - i,
        {
            proof {
                assert(self@.agents.take(i + 1).drop_last() =~= self@.agents.take(i as int));
                assert(self@.agents[i as int] == self.agents@[i as int]@);
            }
            match self.agents[i].state {
                AgentState::Running { .. } => {
                    c = c + 1;
                },
                _ => {},
            }
            i = i + 1;
        }
        proof {
            assert(self@.agents.take(i as int) =~= self@.agents);
        }
        c
    }

    /// Whether any agent is running.
    pub fn has_running_agents(&self) -> (r: bool)
        ensures
            r == (running_count_spec(self@.agents) > 0),
    {
        self.running_count() > 0
    }

    /// Move the selection onto the last entry when it lies past it.
    pub fn clamp_scroll(&mut self)
        ensures
            final(self)@ == match old(self)@.selected {
                Some(s) => if s >= old(self)@.agents.len() && old(self)@.agents.len() > 0 {
                    AgentStatusV { selected: Some((old(self)@.agents.len() - 1) as usize), ..old(self)@ }
                } else {
                    old(self)@
                },
                None => old(self)@,
            },
    {
        proof {
            use_type_invariant(&*self);
        }
        let len = self.agents.len();
        if let Some(s) = self.selected {
            if s >= len && len > 0 {
                self.selected = Some(len - 1);
            }
        }
    }

    /// j/Down and k/Up move the selection within the history.
    pub fn handle_key(&mut self, key: KeyEvent) -> (r: Option<Action>)
        ensures
            r is None,
            final(self)@ == agent_on_key(old(self)@, key.code),
    {
        proof {
            use_type_invariant(&*self);
        }
        let len = self.agents.len();
        if len == 0 {
            return None;
        }
        let cur = match self.selected {
            Some(s) => s,
            None => 0,
        };
        match key.code {
            KeyCode::Char('j') | KeyCode::Down => {
                self.selected = Some(if cur >= len - 1 { len - 1 } else { cur + 1 });
            },
            KeyCode::Char('k') | KeyCode::Up => {
                self.selected = Some(if cur == 0 { 0 } else { cur - 1 });
            },
            _ => {},
        }
        None
    }

    /// Answer an event received at `now`.
    pub fn handle_event(&mut self, event: &AppEvent, now: u128)
        requires
            old(self)@.next_seq < u64::MAX,
        ensures
            final(self)@ == agent_on_event(old(self)@, *event, now),
    {
        match event {
            AppEvent::AgentStarted { agent_id, agent_type } => {
                self.agent_started(agent_id.clone(), agent_type.clone(), now);
            },
            AppEvent::AgentStopped { agent_id } => {
                self.agent_stopped(agent_id.as_str());
            },
            AppEvent::HooksServerStarted { .. } => {
                self.set_hooks_active(true);
            },
            AppEvent::HooksServerFailed { .. } => {
                self.set_hooks_active(false);
            },
            _ => {},
        }
    }
}

// ---------------------------------------------------------------------
// What the panel shows
// ---------------------------------------------------------------------

/// One row of the history: icon and type in the state's tone, then how
/// long it has run (running), `done` or `t/o`.
pub open spec fn agent_row(e: AgentEntryV, now: u128) -> Seq<SpanV> {
    let ty = pad_right(e.agent_type, 10);
    match e.state {
        AgentState::Running { started } => seq![
            sv(Tone::Active, "  "@ + "●"@ + " "@),
            sv(Tone::Active, ty),
            sv(Tone::Dim, " "@ + decimal(elapsed_secs_spec(started, now) as nat) + "s"@),
        ],
        AgentState::Done => seq![sv(Tone::Done, "  "@ + "✓"@ + " "@), sv(Tone::Done, ty), sv(Tone::Dim, " "@ + "done"@)],
        AgentState::Timeout => seq![
            sv(Tone::Timeout, "  "@ + "⏱"@ + " "@),
            sv(Tone::Timeout, ty),
            sv(Tone::Dim, " "@ + "t/o"@),
        ],
    }
}

/// The rows of the history, most recent first.
pub open spec fn agent_rows_spec(a: Seq<AgentEntryV>, now: u128) -> Seq<Seq<SpanV>> {
    Seq::new(a.len(), |i: int| agent_row(a[a.len() - 1 - i], now))
}

/// The footer: how many entries there are and how many run.
pub open spec fn agent_footer_spec(a: Seq<AgentEntryV>) -> Seq<char> {
    "  Total: "@ + decimal(a.len()) + " ("@ + decimal(running_count_spec(a)) + " running)"@
}

fn agent_row_of(e: &AgentEntry, now: u128) -> (r: Vec<Span>)
    ensures
        line_view(r@) == agent_row(e@, now),
{
    let ty = span_of(Tone::Plain, &pad_right_chars(e.agent_type.as_str(), 10));
    match e.state {
        AgentState::Running { started } => {
            let mut t = cat_chars(" ", &decimal_u128(elapsed_secs(started, now)));
            push_str(&mut t, "s");
            line3(
                span_of(Tone::Active, &cat3("  ", Icons::active(), " ")),
                Span { tone: Tone::Active, text: ty.text },
                span_of(Tone::Dim, &t),
            )
        },
        AgentState::Done => line3(
            span_of(Tone::Done, &cat3("  ", Icons::done(), " ")),
            Span { tone: Tone::Done, text: ty.text },
            span_of(Tone::Dim, &cat2(" ", "done")),
        ),
        AgentState::Timeout => line3(
            span_of(Tone::Timeout, &cat3("  ", Icons::timeout(), " ")),
            Span { tone: Tone::Timeout, text: ty.text },
            span_of(Tone::Dim, &cat2(" ", "t/o")),
        ),
    }
}

/// What the panel shows in place of the history: a set-up hint while the
/// hooks are off, a waiting line while nothing has been reported.
pub open spec fn agent_placeholder(p: AgentStatusV) -> Option<Seq<Seq<SpanV>>> {
    if !p.hooks_active {
        Some(
            seq![
                Seq::<SpanV>::empty(),
                seq![sv(Tone::Dim, "  에이전트 추적을 위해"@)],
                seq![sv(Tone::Dim, "  hooks 설정이 필요합니다"@)],
                Seq::<SpanV>::empty(),
                seq![sv(Tone::Dim, "  ? 키로 설정 안내 확인"@)],
            ],
        )
    } else if p.agents.len() == 0 {
        Some(seq![seq![sv(Tone::Dim, "  대기 중..."@)]])
    } else {
        None
    }
}

impl AgentStatusPanel {
    /// The lines shown in place of the history, if any.
    pub fn placeholder(&self) -> (r: Option<Vec<Vec<Span>>>)
        ensures
            match r {
                Some(l) => agent_placeholder(self@) == Some(lines_view(l@)),
                None => agent_placeholder(self@) is None,
            },
    {
        let mut out: Vec<Vec<Span>> = Vec::new();
        if !self.hooks_active {
            push_line(&mut out, blank());
            push_line(&mut out, line1(span(Tone::Dim, "  에이전트 추적을 위해")));
            push_line(&mut out, line1(span(Tone::Dim, "  hooks 설정이 필요합니다")));
            push_line(&mut out, blank());
            push_line(&mut out, line1(span(Tone::Dim, "  ? 키로 설정 안내 확인")));
            assert(lines_view(out@) =~= agent_placeholder(self@)->Some_0);
            return Some(out);
        }
        if self.agents.len() == 0 {
            push_line(&mut out, line1(span(Tone::Dim, "  대기 중...")));
            assert(lines_view(out@) =~= agent_placeholder(self@)->Some_0);
            return Some(out);
        }
        None
    }

    /// The rows of the history as shown at `now`, most recent first.
    pub fn rows(&self, now: u128) -> (r: Vec<Vec<Span>>)
        ensures
            lines_view(r@) == agent_rows_spec(self@.agents, now),
    {
        let n = self.agents.len();
        let mut out: Vec<Vec<Span>> = Vec::new();
        let mut i: usize = 0;
        while i < n
            invariant
                n == self.agents@.len(),
                i <= n,
                lines_view(out@) == Seq::new(i as nat, |k: int| agent_row(self@.agents[n - 1 - k], now)),
            decreases n - i,
        {
            let row = agent_row_of(&self.agents[n - 1 - i], now);
            proof {
                assert(self@.agents[n - 1 - i] == self.agents@[n - 1 - i]@);
            }
            push_line(&mut out, row);
            assert(lines_view(out@) =~= Seq::new((i + 1) as nat, |k: int| agent_row(self@.agents[n - 1 - k], now)));
            i = i + 1;
        }
        assert(lines_view(out@) =~= agent_rows_spec(self@.agents, now));
        out
    }

    /// The footer line's text.
    pub fn footer(&self) -> (r: String)
        ensures
            r@ == agent_footer_spec(self@.agents),
    {
        let total = self.agents.len() as u64;
        let running = self.running_count() as u64;
        let mut v = cat_chars("  Total: ", &decimal_chars(total));
        push_str(&mut v, " (");
        push_all(&mut v, &decimal_chars(running));
        push_str(&mut v, " running)");
        string_of(&v)
    }
}

// ---------------------------------------------------------------------
// Laws
// ---------------------------------------------------------------------

/// After the timeout check no entry is still running past the orphan
/// timeout; the entries keep their ids, types and order.
pub proof fn lemma_no_stale_running(a: Seq<AgentEntryV>, now: u128)
    ensures
        mark_timeouts(a, now).len() == a.len(),
        forall|i: int| 0 <= i < a.len() ==> (#[trigger] mark_timeouts(a, now)[i]).agent_id == a[i].agent_id
            && mark_timeouts(a, now)[i].agent_type == a[i].agent_type,
        forall|i: int|
            0 <= i < a.len() ==> match (#[trigger] mark_timeouts(a, now)[i]).state {
                AgentState::Running { started } => !timed_out(started, now),
                _ => true,
            },
{
}

/// Once an agent has stopped, no entry of its id is running; entries of
/// other agents are untouched.
pub proof fn lemma_stopped_not_running(a: Seq<AgentEntryV>, id: Seq<char>)
    ensures
        mark_done(a, id).len() == a.len(),
        forall|i: int| 0 <= i < a.len() && is_running(#[trigger] mark_done(a, id)[i]) ==> mark_done(a, id)[i].agent_id != id,
        forall|i: int| 0 <= i < a.len() && a[i].agent_id != id ==> #[trigger] mark_done(a, id)[i] == a[i],
{
}

/// A started agent is the newest entry, running since the moment it started,
/// and it is the only running entry of its id.
pub proof fn lemma_started_is_newest(p: AgentStatusV, id: Seq<char>, ty: Seq<char>, now: u128)
    ensures
        ({
            let a = started_spec(p, id, ty, now).agents;
            &&& a.len() > 0
            &&& a.last() == (AgentEntryV {
                seq: p.next_seq,
                agent_id: id,
                agent_type: ty,
                state: AgentState::Running { started: now },
            })
            &&& forall|i: int| 0 <= i < a.len() - 1 && is_running(#[trigger] a[i]) ==> a[i].agent_id != id
        }),
{
    let m = mark_done(p.agents, id);
    let full = m.push(
        AgentEntryV { seq: p.next_seq, agent_id: id, agent_type: ty, state: AgentState::Running { started: now } },
    );
    let a = keep_last(full, MAX_HISTORY as nat);
    if full.len() > MAX_HISTORY {
        assert forall|i: int| 0 <= i < a.len() - 1 && is_running(#[trigger] a[i]) implies a[i].agent_id != id by {
            assert(a[i] == full[i + (full.len() - MAX_HISTORY)]);
            assert(a[i] == m[i + (full.len() - MAX_HISTORY)]);
        }
    } else {
        assert forall|i: int| 0 <= i < a.len() - 1 && is_running(#[trigger] a[i]) implies a[i].agent_id != id by {
            assert(a[i] == m[i]);
        }
    }
}

} // verus!
