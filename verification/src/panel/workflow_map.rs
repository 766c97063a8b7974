//! Workflow map panel: the stages of each phase, which of them the
//! declared complexity shows, and where each stands.

use vstd::prelude::*;

use crate::action::Action;
use crate::event::AppEvent;
use crate::input::{KeyCode, KeyEvent};
use crate::parser::models::{
    default_flow_state, default_session_summary, work_item_views, work_marker_icon, Complexity,
    FlowState, FlowStateV, SessionSummary, SessionSummaryV, StageStatus, WorkItem, WorkItemV,
    WorkMarker,
};
use crate::text::{chars_of, eq_chars, owned};
use crate::ui::theme::Icons;
use crate::ui::view::{
    append_lines, blank, cat2, cat3, indented, line1, line2, lines_view, push_indented, push_line, span, span_of, sv,
    Span, SpanV, Tone,
};

verus! {

/// A stage of the workflow and the least complexity at which it is shown
/// (`None`: always shown).
#[derive(Debug, Clone, Copy)]
pub struct StageInfo {
    pub name: &'static str,
    pub min_complexity: Option<Complexity>,
}

pub open spec fn stage_list(v: Seq<StageInfo>) -> Seq<(Seq<char>, Option<Complexity>)> {
    v.map_values(|s: StageInfo| (s.name@, s.min_complexity))
}

/// The stages of the INCEPTION phase, in order.
pub open spec fn inception_spec() -> Seq<(Seq<char>, Option<Complexity>)> {
    seq![
        ("workspace-detection"@, None),
        ("complexity-declaration"@, None),
        ("requirements-analysis"@, None),
        ("user-stories"@, Some(Complexity::Standard)),
        ("nfr-requirements"@, Some(Complexity::Standard)),
        ("workflow-planning"@, None),
        ("application-design"@, Some(Complexity::Comprehensive)),
        ("units-generation"@, Some(Complexity::Comprehensive)),
    ]
}

/// The stages of the CONSTRUCTION phase, in order.
pub open spec fn construction_spec() -> Seq<(Seq<char>, Option<Complexity>)> {
    seq![
        ("functional-design"@, Some(Complexity::Comprehensive)),
        ("git-worktree"@, None),
        ("code-generation"@, None),
        ("build-and-test"@, None),
        ("code-review"@, None),
        ("finishing-branch"@, None),
    ]
}

fn stage(name: &'static str, min_complexity: Option<Complexity>) -> (r: StageInfo)
    ensures
        r.name == name,
        r.min_complexity == min_complexity,
{
    StageInfo { name, min_complexity }
}

/// The INCEPTION stages.
pub fn inception_stages() -> (r: Vec<StageInfo>)
    ensures
        stage_list(r@) == inception_spec(),
{
    let mut v: Vec<StageInfo> = Vec::new();
    v.push(stage("workspace-detection", None));
    v.push(stage("complexity-declaration", None));
    v.push(stage("requirements-analysis", None));
    v.push(stage("user-stories", Some(Complexity::Standard)));
    v.push(stage("nfr-requirements", Some(Complexity::Standard)));
    v.push(stage("workflow-planning", None));
    v.push(stage("application-design", Some(Complexity::Comprehensive)));
    v.push(stage("units-generation", Some(Complexity::Comprehensive)));
    assert(stage_list(v@) =~= inception_spec());
    v
}

/// The CONSTRUCTION stages.
pub fn construction_stages() -> (r: Vec<StageInfo>)
    ensures
        stage_list(r@) == construction_spec(),
{
    let mut v: Vec<StageInfo> = Vec::new();
    v.push(stage("functional-design", Some(Complexity::Comprehensive)));
    v.push(stage("git-worktree", None));
    v.push(stage("code-generation", None));
    v.push(stage("build-and-test", None));
    v.push(stage("code-review", None));
    v.push(stage("finishing-branch", None));
    assert(stage_list(v@) =~= construction_spec());
    v
}

/// Where a stage stands in the flow state: the current stage is active;
/// otherwise completed, skipped or deferred if listed so (in that order of
/// precedence); otherwise waiting.
pub open spec fn stage_status_spec(st: FlowStateV, name: Seq<char>) -> StageStatus {
    if st.stage == name {
        StageStatus::Active
    } else if exists|i: int| 0 <= i < st.completed_stages.len() && #[trigger] st.completed_stages[i].name == name {
        StageStatus::Completed
    } else if exists|i: int| 0 <= i < st.skipped_stages.len() && #[trigger] st.skipped_stages[i].name == name {
        StageStatus::Skipped
    } else if exists|i: int| 0 <= i < st.deferred_stages.len() && #[trigger] st.deferred_stages[i].name == name {
        StageStatus::Deferred
    } else {
        StageStatus::Waiting
    }
}

/// A stage is shown when the declared complexity reaches its minimum.
pub open spec fn visible_spec(c: Complexity, min: Option<Complexity>) -> bool {
    match min {
        None => true,
        Some(Complexity::Standard) => c == Complexity::Standard || c == Complexity::Comprehensive,
        Some(Complexity::Comprehensive) => c == Complexity::Comprehensive,
        Some(Complexity::Minimal) => true,
    }
}

/// The visible stages of a phase with their status, in order.
pub open spec fn stage_rows_spec(st: FlowStateV, stages: Seq<(Seq<char>, Option<Complexity>)>) -> Seq<(Seq<char>, StageStatus)>
    decreases stages.len(),
{
    if stages.len() == 0 {
        Seq::empty()
    } else {
        let p = stage_rows_spec(st, stages.drop_last());
        let s = stages.last();
        if visible_spec(st.complexity, s.1) {
            p.push((s.0, stage_status_spec(st, s.0)))
        } else {
            p
        }
    }
}

pub struct WorkflowMapPanel {
    pub flow_state: FlowState,
    pub session_summary: SessionSummary,
    pub syncing: bool,
    pub scroll_offset: u16,
}

pub ghost struct WorkflowMapV {
    pub flow_state: FlowStateV,
    pub session_summary: SessionSummaryV,
    pub syncing: bool,
    pub scroll_offset: u16,
}

impl View for WorkflowMapPanel {
    type V = WorkflowMapV;

    open spec fn view(&self) -> WorkflowMapV {
        WorkflowMapV {
            flow_state: self.flow_state@,
            session_summary: self.session_summary@,
            syncing: self.syncing,
            scroll_offset: self.scroll_offset,
        }
    }
}

/// How the panel answers an event.
pub open spec fn workflow_on_event(p: WorkflowMapV, e: AppEvent) -> WorkflowMapV {
    match e {
        AppEvent::FlowStateChanged(s) => WorkflowMapV { flow_state: s@, syncing: false, ..p },
        AppEvent::SessionSummaryChanged(s) => WorkflowMapV { session_summary: s@, ..p },
        AppEvent::ParseError { .. } => WorkflowMapV { syncing: true, ..p },
        _ => p,
    }
}

pub open spec fn is_down(k: KeyCode) -> bool {
    k == KeyCode::Char('j') || k == KeyCode::Down
}

pub open spec fn is_up(k: KeyCode) -> bool {
    k == KeyCode::Char('k') || k == KeyCode::Up
}

/// `n + 1`, or `u16::MAX` when that does not fit.
pub open spec fn sat_inc16(n: u16) -> u16 {
    if n == u16::MAX {
        u16::MAX
    } else {
        (n + 1) as u16
    }
}

/// `n - 1`, or 0 when `n` is 0.
pub open spec fn sat_dec16(n: u16) -> u16 {
    if n == 0 {
        0
    } else {
        (n - 1) as u16
    }
}

/// How a key changes the panel: j/Down and k/Up scroll; others leave it.
pub open spec fn workflow_on_key(p: WorkflowMapV, k: KeyCode) -> WorkflowMapV {
    if is_down(k) {
        WorkflowMapV { scroll_offset: sat_inc16(p.scroll_offset), ..p }
    } else if is_up(k) {
        WorkflowMapV { scroll_offset: sat_dec16(p.scroll_offset), ..p }
    } else {
        p
    }
}

impl WorkflowMapPanel {
    pub fn new() -> (r: Self)
        ensures
            r@ == (WorkflowMapV {
                flow_state: default_flow_state(),
                session_summary: default_session_summary(),
                syncing: false,
                scroll_offset: 0,
            }),
    {
        WorkflowMapPanel {
            flow_state: FlowState::default(),
            session_summary: SessionSummary::default(),
            syncing: false,
            scroll_offset: 0,
        }
    }

    /// A new flow state ends any syncing indication.
    pub fn set_flow_state(&mut self, state: FlowState)
        ensures
            final(self)@ == (WorkflowMapV { flow_state: state@, syncing: false, ..old(self)@ }),
    {
        self.flow_state = state;
        self.syncing = false;
    }

    pub fn set_session_summary(&mut self, summary: SessionSummary)
        ensures
            final(self)@ == (WorkflowMapV { session_summary: summary@, ..old(self)@ }),
    {
        self.session_summary = summary;
    }

    pub fn set_syncing(&mut self)
        ensures
            final(self)@ == (WorkflowMapV { syncing: true, ..old(self)@ }),
    {
        self.syncing = true;
    }

    pub fn stage_status(&self, stage_name: &str) -> (r: StageStatus)
        ensures
            r == stage_status_spec(self@.flow_state, stage_name@),
    {
        let n = chars_of(stage_name);
        if eq_chars(&chars_of(self.flow_state.stage.as_str()), &n) {
            return StageStatus::Active;
        }
        let mut i: usize = 0;
        while i < self.flow_state.completed_stages.len()
            invariant
                i <= self.flow_state.completed_stages@.len(),
                n@ == stage_name@,
                self@.flow_state.stage != stage_name@,
                forall|j: int| 0 <= j < i ==> #[trigger] self@.flow_state.completed_stages[j].name != stage_name@,
            decreases self.flow_state.completed_stages.len() - i,
        {
            if eq_chars(&chars_of(self.flow_state.completed_stages[i].name.as_str()), &n) {
                assert(self@.flow_state.completed_stages[i as int].name == stage_name@);
                return StageStatus::Completed;
            }
            assert(self@.flow_state.completed_stages[i as int].name != stage_name@);
            i = i + 1;
        }
        let mut i: usize = 0;
        while i < self.flow_state.skipped_stages.len()
            invariant
                i <= self.flow_state.skipped_stages@.len(),
                n@ == stage_name@,
                self@.flow_state.stage != stage_name@,
                forall|j: int| 0 <= j < self@.flow_state.completed_stages.len() ==> #[trigger] self@.flow_state.completed_stages[j].name != stage_name@,
                forall|j: int| 0 <= j < i ==> #[trigger] self@.flow_state.skipped_stages[j].name != stage_name@,
            decreases self.flow_state.skipped_stages.len() - i,
        {
            if eq_chars(&chars_of(self.flow_state.skipped_stages[i].name.as_str()), &n) {
                assert(self@.flow_state.skipped_stages[i as int].name == stage_name@);
                return StageStatus::Skipped;
            }
            assert(self@.flow_state.skipped_stages[i as int].name != stage_name@);
            i = i + 1;
        }
        let mut i: usize = 0;
        while i < self.flow_state.deferred_stages.len()
            invariant
                i <= self.flow_state.deferred_stages@.len(),
                n@ == stage_name@,
                self@.flow_state.stage != stage_name@,
                forall|j: int| 0 <= j < self@.flow_state.completed_stages.len() ==> #[trigger] self@.flow_state.completed_stages[j].name != stage_name@,
                forall|j: int| 0 <= j < self@.flow_state.skipped_stages.len() ==> #[trigger] self@.flow_state.skipped_stages[j].name != stage_name@,
                forall|j: int| 0 <= j < i ==> #[trigger] self@.flow_state.deferred_stages[j].name != stage_name@,
            decreases self.flow_state.deferred_stages.len() - i,
        {
            if eq_chars(&chars_of(self.flow_state.deferred_stages[i].name.as_str()), &n) {
                assert(self@.flow_state.deferred_stages[i as int].name == stage_name@);
                return StageStatus::Deferred;
            }
            assert(self@.flow_state.deferred_stages[i as int].name != stage_name@);
            i = i + 1;
        }
        StageStatus::Waiting
    }

    pub fn is_visible(&self, info: &StageInfo) -> (r: bool)
        ensures
            r == visible_spec(self@.flow_state.complexity, info.min_complexity),
    {
        match info.min_complexity {
            None => true,
            Some(Complexity::Standard) => match self.flow_state.complexity {
                Complexity::Standard | Complexity::Comprehensive => true,
                Complexity::Minimal => false,
            },
            Some(Complexity::Comprehensive) => match self.flow_state.complexity {
                Complexity::Comprehensive => true,
                _ => false,
            },
            Some(Complexity::Minimal) => true,
        }
    }

    /// The stages of a phase that are shown, each with its status.
    pub fn stage_rows(&self, stages: &Vec<StageInfo>) -> (r: Vec<(String, StageStatus)>)
        ensures
            r@.map_values(|x: (String, StageStatus)| (x.0@, x.1)) == stage_rows_spec(
                self@.flow_state,
                stage_list(stages@),
            ),
    {
        let ghost sl = stage_list(stages@);
        let mut out: Vec<(String, StageStatus)> = Vec::new();
        let mut i: usize = 0;
        while i < stages.len()
            invariant
                i <= stages@.len(),
                sl == stage_list(stages@),
                out@.map_values(|x: (String, StageStatus)| (x.0@, x.1)) == stage_rows_spec(
                    self@.flow_state,
                    sl.take(i as int),
                ),
            decreases stages.len() - i,
        {
            proof {
                assert(sl.take(i + 1).drop_last() =~= sl.take(i as int));
            }
            let info = &stages[i];
            if self.is_visible(info) {
                let st = self.stage_status(info.name);
                let ghost before = out@.map_values(|x: (String, StageStatus)| (x.0@, x.1));
                out.push((owned(info.name), st));
                proof {
                    assert(out@.map_values(|x: (String, StageStatus)| (x.0@, x.1)) =~= before.push(
                        (info.name@, st),
                    ));
                }
            }
            i = i + 1;
        }
        proof {
            assert(sl.take(i as int) =~= sl);
        }
        out
    }

    /// j/Down and k/Up scroll (saturating); Enter asks for the artifact view.
    pub fn handle_key(&mut self, key: KeyEvent) -> (r: Option<Action>)
        ensures
            final(self)@ == workflow_on_key(old(self)@, key.code),
            (r matches Some(Action::OpenArtifactModal)) <==> key.code == KeyCode::Enter,
            r is None <==> key.code != KeyCode::Enter,
    {
        match key.code {
            KeyCode::Char('j') | KeyCode::Down => {
                self.scroll_offset = self.scroll_offset.saturating_add(1);
                None
            },
            KeyCode::Char('k') | KeyCode::Up => {
                self.scroll_offset = self.scroll_offset.saturating_sub(1);
                None
            },
            KeyCode::Enter => Some(Action::OpenArtifactModal),
            _ => None,
        }
    }

    pub fn handle_event(&mut self, event: &AppEvent)
        ensures
            final(self)@ == workflow_on_event(old(self)@, *event),
    {
        match event {
            AppEvent::FlowStateChanged(state) => self.set_flow_state(state.clone()),
            AppEvent::SessionSummaryChanged(summary) => self.set_session_summary(summary.clone()),
            AppEvent::ParseError { .. } => self.set_syncing(),
            _ => {},
        }
    }
}

// ---------------------------------------------------------------------
// What the panel shows
// ---------------------------------------------------------------------

/// Icon and tone of a stage's status (deferred stages are drawn as skipped ones).
pub open spec fn stage_look(st: StageStatus) -> (Seq<char>, Tone) {
    match st {
        StageStatus::Active => ("●"@, Tone::Active),
        StageStatus::Completed => ("✓"@, Tone::Done),
        StageStatus::Waiting => ("○"@, Tone::Waiting),
        StageStatus::Skipped => ("–"@, Tone::Skipped),
        StageStatus::Deferred => ("◇"@, Tone::Skipped),
    }
}

/// A stage's row in the tree; the last row closes the branch.
pub open spec fn tree_row(name: Seq<char>, st: StageStatus, last: bool) -> Seq<SpanV> {
    seq![
        sv(Tone::Dim, if last { "  └── "@ } else { "  ├── "@ }),
        sv(stage_look(st).1, stage_look(st).0 + " "@ + name),
    ]
}

/// A phase's title followed by its visible stages.
pub open spec fn stage_block(title: Seq<char>, rows: Seq<(Seq<char>, StageStatus)>) -> Seq<Seq<SpanV>> {
    seq![seq![sv(Tone::Bold, title)]] + Seq::new(rows.len(), |i: int| tree_row(rows[i].0, rows[i].1, i == rows.len() - 1))
}

pub open spec fn work_tone(m: WorkMarker) -> Tone {
    match m {
        WorkMarker::Done => Tone::Done,
        WorkMarker::InProgress => Tone::Active,
        WorkMarker::Pending => Tone::Waiting,
    }
}

pub open spec fn work_row(w: WorkItemV) -> Seq<SpanV> {
    seq![sv(work_tone(w.marker), "    "@ + work_marker_icon(w.marker) + " "@), sv(work_tone(w.marker), w.text)]
}

pub open spec fn syncing_part(syncing: bool) -> Seq<Seq<SpanV>> {
    if syncing {
        seq![seq![sv(Tone::Yellow, "  Syncing..."@)], Seq::<SpanV>::empty()]
    } else {
        Seq::empty()
    }
}

pub open spec fn trees_part(st: FlowStateV) -> Seq<Seq<SpanV>> {
    stage_block("  INCEPTION"@, stage_rows_spec(st, inception_spec())) + seq![Seq::<SpanV>::empty()] + stage_block(
        "  CONSTRUCTION"@,
        stage_rows_spec(st, construction_spec()),
    ) + seq![Seq::<SpanV>::empty()]
}

pub open spec fn work_part(ss: SessionSummaryV) -> Seq<Seq<SpanV>> {
    if ss.completed_work.len() > 0 {
        seq![seq![sv(Tone::Dim, "  Completed Work:"@)]] + ss.completed_work.map_values(|w: WorkItemV| work_row(w))
            + seq![Seq::<SpanV>::empty()]
    } else {
        Seq::empty()
    }
}

pub open spec fn decisions_part(ss: SessionSummaryV) -> Seq<Seq<SpanV>> {
    if ss.key_decisions.len() > 0 {
        seq![seq![sv(Tone::Dim, "  Key Decisions:"@)]] + indented("    • "@, Tone::Dim, ss.key_decisions) + seq![
            Seq::<SpanV>::empty(),
        ]
    } else {
        Seq::empty()
    }
}

pub open spec fn next_part(ss: SessionSummaryV) -> Seq<Seq<SpanV>> {
    if ss.next_steps.len() > 0 {
        seq![seq![sv(Tone::Dim, "  Next:"@)]] + indented("    "@, Tone::Dim, ss.next_steps)
    } else {
        Seq::empty()
    }
}

pub open spec fn unit_part(st: FlowStateV) -> Seq<Seq<SpanV>> {
    match st.active_unit {
        Some(u) => seq![Seq::<SpanV>::empty(), seq![sv(Tone::Yellow, "  Active Unit: "@ + u)]],
        None => Seq::empty(),
    }
}

/// The panel's text: a syncing notice, the two phase trees, then the
/// session's completed work, key decisions and next steps, and the active unit.
pub open spec fn workflow_lines(p: WorkflowMapV) -> Seq<Seq<SpanV>> {
    syncing_part(p.syncing) + trees_part(p.flow_state) + work_part(p.session_summary) + decisions_part(
        p.session_summary,
    ) + next_part(p.session_summary) + unit_part(p.flow_state)
}

fn stage_icon(st: StageStatus) -> (r: (&'static str, Tone))
    ensures
        r.0@ == stage_look(st).0,
        r.1 == stage_look(st).1,
{
    match st {
        StageStatus::Active => (Icons::active(), Tone::Active),
        StageStatus::Completed => (Icons::done(), Tone::Done),
        StageStatus::Waiting => (Icons::waiting(), Tone::Waiting),
        StageStatus::Skipped => (Icons::skipped(), Tone::Skipped),
        StageStatus::Deferred => (Icons::deferred(), Tone::Skipped),
    }
}

fn push_stage_block(out: &mut Vec<Vec<Span>>, title: &str, rows: &Vec<(String, StageStatus)>)
    ensures
        lines_view(final(out)@) == lines_view(old(out)@) + stage_block(
            title@,
            rows@.map_values(|x: (String, StageStatus)| (x.0@, x.1)),
        ),
{
    let ghost rv = rows@.map_values(|x: (String, StageStatus)| (x.0@, x.1));
    let ghost start = lines_view(out@);
    push_line(out, line1(span(Tone::Bold, title)));
    let n = rows.len();
    let mut i: usize = 0;
    while i < n
        invariant
            n == rows@.len(),
            rv == rows@.map_values(|x: (String, StageStatus)| (x.0@, x.1)),
            i <= n,
            lines_view(out@) == start + seq![seq![sv(Tone::Bold, title@)]] + Seq::new(
                i as nat,
                |k: int| tree_row(rv[k].0, rv[k].1, k == rv.len() - 1),
            ),
        decreases n - i,
    {
        let (icon, tone) = stage_icon(rows[i].1);
        let prefix = if i + 1 == n { "  └── " } else { "  ├── " };
        let l = line2(span(Tone::Dim, prefix), span_of(tone, &cat3(icon, " ", rows[i].0.as_str())));
        push_line(out, l);
        assert(lines_view(out@) =~= start + seq![seq![sv(Tone::Bold, title@)]] + Seq::new(
            (i + 1) as nat,
            |k: int| tree_row(rv[k].0, rv[k].1, k == rv.len() - 1),
        ));
        i = i + 1;
    }
    assert(lines_view(out@) =~= start + stage_block(title@, rv));
}

fn push_work_items(out: &mut Vec<Vec<Span>>, items: &Vec<WorkItem>)
    ensures
        lines_view(final(out)@) == lines_view(old(out)@) + work_item_views(items@).map_values(|w: WorkItemV| work_row(w)),
{
    let ghost start = lines_view(out@);
    let ghost wv = work_item_views(items@);
    let mut i: usize = 0;
    while i < items.len()
        invariant
            i <= items@.len(),
            wv == work_item_views(items@),
            lines_view(out@) == start + wv.take(i as int).map_values(|w: WorkItemV| work_row(w)),
        decreases items.len() - i,
    {
        let it = &items[i];
        let tone = match it.marker {
            WorkMarker::Done => Tone::Done,
            WorkMarker::InProgress => Tone::Active,
            WorkMarker::Pending => Tone::Waiting,
        };
        push_line(out, line2(span_of(tone, &cat3("    ", it.marker.icon(), " ")), span(tone, it.text.as_str())));
        assert(wv.take(i + 1) =~= wv.take(i as int).push(items@[i as int]@));
        assert(lines_view(out@) =~= start + wv.take(i + 1).map_values(|w: WorkItemV| work_row(w)));
        i = i + 1;
    }
    assert(wv.take(i as int) =~= wv);
}

fn syncing_lines(syncing: bool) -> (r: Vec<Vec<Span>>)
    ensures
        lines_view(r@) == syncing_part(syncing),
{
    let mut out: Vec<Vec<Span>> = Vec::new();
    if syncing {
        push_line(&mut out, line1(span(Tone::Yellow, "  Syncing...")));
        push_line(&mut out, blank());
    }
    assert(lines_view(out@) =~= syncing_part(syncing));
    out
}

fn work_lines(ss: &SessionSummary) -> (r: Vec<Vec<Span>>)
    ensures
        lines_view(r@) == work_part(ss@),
{
    let mut out: Vec<Vec<Span>> = Vec::new();
    if ss.completed_work.len() > 0 {
        push_line(&mut out, line1(span(Tone::Dim, "  Completed Work:")));
        push_work_items(&mut out, &ss.completed_work);
        push_line(&mut out, blank());
    }
    assert(lines_view(out@) =~= work_part(ss@));
    out
}

fn decision_lines(ss: &SessionSummary) -> (r: Vec<Vec<Span>>)
    ensures
        lines_view(r@) == decisions_part(ss@),
{
    let mut out: Vec<Vec<Span>> = Vec::new();
    if ss.key_decisions.len() > 0 {
        push_line(&mut out, line1(span(Tone::Dim, "  Key Decisions:")));
        push_indented(&mut out, "    • ", Tone::Dim, &ss.key_decisions);
        push_line(&mut out, blank());
    }
    assert(lines_view(out@) =~= decisions_part(ss@));
    out
}

fn next_lines(ss: &SessionSummary) -> (r: Vec<Vec<Span>>)
    ensures
        lines_view(r@) == next_part(ss@),
{
    let mut out: Vec<Vec<Span>> = Vec::new();
    if ss.next_steps.len() > 0 {
        push_line(&mut out, line1(span(Tone::Dim, "  Next:")));
        push_indented(&mut out, "    ", Tone::Dim, &ss.next_steps);
    }
    assert(lines_view(out@) =~= next_part(ss@));
    out
}

fn unit_lines(st: &FlowState) -> (r: Vec<Vec<Span>>)
    ensures
        lines_view(r@) == unit_part(st@),
{
    let mut out: Vec<Vec<Span>> = Vec::new();
    if let Some(u) = &st.active_unit {
        push_line(&mut out, blank());
        push_line(&mut out, line1(span_of(Tone::Yellow, &cat2("  Active Unit: ", u.as_str()))));
    }
    assert(lines_view(out@) =~= unit_part(st@));
    out
}

impl WorkflowMapPanel {
    fn tree_lines(&self) -> (r: Vec<Vec<Span>>)
        ensures
            lines_view(r@) == trees_part(self@.flow_state),
    {
        let mut out: Vec<Vec<Span>> = Vec::new();
        let inc = self.stage_rows(&inception_stages());
        push_stage_block(&mut out, "  INCEPTION", &inc);
        push_line(&mut out, blank());
        let con = self.stage_rows(&construction_stages());
        push_stage_block(&mut out, "  CONSTRUCTION", &con);
        push_line(&mut out, blank());
        assert(lines_view(out@) =~= trees_part(self@.flow_state));
        out
    }

    /// The panel's text lines.
    pub fn lines(&self) -> (r: Vec<Vec<Span>>)
        ensures
            lines_view(r@) == workflow_lines(self@),
    {
        let mut out = syncing_lines(self.syncing);
        append_lines(&mut out, self.tree_lines());
        append_lines(&mut out, work_lines(&self.session_summary));
        append_lines(&mut out, decision_lines(&self.session_summary));
        append_lines(&mut out, next_lines(&self.session_summary));
        append_lines(&mut out, unit_lines(&self.flow_state));
        out
    }
}

// ---------------------------------------------------------------------
// Laws
// ---------------------------------------------------------------------

/// How a stage's status follows from the flow state: the current stage is
/// active; a stage that is not current and listed as completed is
/// completed; one neither current nor completed but listed as skipped is
/// skipped; one listed only as deferred is deferred; a stage listed nowhere
/// is waiting.
pub proof fn lemma_stage_status_by_lists(st: FlowStateV, name: Seq<char>)
    ensures
        st.stage == name ==> stage_status_spec(st, name) == StageStatus::Active,
        st.stage != name && (exists|i: int| 0 <= i < st.completed_stages.len() && st.completed_stages[i].name == name)
            ==> stage_status_spec(st, name) == StageStatus::Completed,
        st.stage != name && (forall|i: int| 0 <= i < st.completed_stages.len() ==> st.completed_stages[i].name != name)
            && (exists|i: int| 0 <= i < st.skipped_stages.len() && st.skipped_stages[i].name == name)
            ==> stage_status_spec(st, name) == StageStatus::Skipped,
        st.stage != name && (forall|i: int| 0 <= i < st.completed_stages.len() ==> st.completed_stages[i].name != name)
            && (forall|i: int| 0 <= i < st.skipped_stages.len() ==> st.skipped_stages[i].name != name)
            && (exists|i: int| 0 <= i < st.deferred_stages.len() && st.deferred_stages[i].name == name)
            ==> stage_status_spec(st, name) == StageStatus::Deferred,
        st.stage != name && (forall|i: int| 0 <= i < st.completed_stages.len() ==> st.completed_stages[i].name != name)
            && (forall|i: int| 0 <= i < st.skipped_stages.len() ==> st.skipped_stages[i].name != name)
            && (forall|i: int| 0 <= i < st.deferred_stages.len() ==> st.deferred_stages[i].name != name)
            ==> stage_status_spec(st, name) == StageStatus::Waiting,
{
}

/// A stage listed as skipped, and neither current nor completed, shows as
/// skipped on the map.
pub proof fn lemma_skipped_stage_shown_skipped(st: FlowStateV, name: Seq<char>, i: int)
    requires
        0 <= i < st.skipped_stages.len(),
        st.skipped_stages[i].name == name,
        st.stage != name,
        forall|j: int| 0 <= j < st.completed_stages.len() ==> st.completed_stages[j].name != name,
    ensures
        stage_status_spec(st, name) == StageStatus::Skipped,
{
    lemma_stage_status_by_lists(st, name);
}

} // verus!
