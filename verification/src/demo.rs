//! Sample data for the `--demo` mode: a construction-phase flow state, a
//! session summary, a git snapshot, an audit log and three agents.

use vstd::prelude::*;

use crate::app::{App, AppV};
use crate::event::AppEvent;
use crate::panel::agent_status::{mark_done, started_spec, AgentStatusV};
use crate::panel::audit_log::with_entries;
use crate::panel::git_status::{clamp_selected, GitStatusV};
use crate::panel::workflow_map::WorkflowMapV;
use crate::parser::models::{
    audit_views, default_flow_state, default_session_summary, AuditEntry, AuditEntryV, CompletedStage,
    CompletedStageV, Complexity, DiffStat, FlowState, FlowStateV, GitChange, GitChangeStatus, GitChangeV,
    GitCommit, GitCommitV, GitSnapshot, GitSnapshotV, Phase, SessionSummary, SessionSummaryV, WorkItem,
    WorkItemV, WorkMarker,
};
use crate::text::{chars_of, digit_char, owned, push_str, string_of};

verus! {

broadcast use vstd::seq_lib::group_seq_properties;

// ---------------------------------------------------------------------
// The sample data
// ---------------------------------------------------------------------

pub open spec fn demo_flow_state_spec() -> FlowStateV {
    FlowStateV {
        phase: Phase::Construction,
        stage: "code-generation"@,
        complexity: Complexity::Standard,
        completed_stages: seq![
            CompletedStageV { name: "workspace-detection"@, timestamp: None },
            CompletedStageV { name: "requirements-analysis"@, timestamp: None },
            CompletedStageV { name: "workflow-planning"@, timestamp: None },
        ],
        active_unit: Some("Unit 11"@),
        ..default_flow_state()
    }
}

pub open spec fn demo_summary_spec() -> SessionSummaryV {
    SessionSummaryV {
        completed_work: seq![
            WorkItemV { text: "Phase 1: Foundation + Parser"@, marker: WorkMarker::Done },
            WorkItemV { text: "Phase 2: Data Adapters"@, marker: WorkMarker::Done },
            WorkItemV { text: "Phase 3: UI Panels"@, marker: WorkMarker::InProgress },
        ],
        key_decisions: seq!["Approach B: layered unit decomposition"@, "ratatui 0.30 + crossterm 0.29"@],
        next_steps: seq!["Phase 4: App Integration"@],
        ..default_session_summary()
    }
}

pub open spec fn demo_snapshot_spec() -> GitSnapshotV {
    GitSnapshotV {
        branch: "feature/unit-11"@,
        head: "abc1234"@,
        changes: seq![
            GitChangeV { status: GitChangeStatus::Staged, path: "src/app.rs"@, additions: Some(200), deletions: Some(0) },
            GitChangeV {
                status: GitChangeStatus::Staged,
                path: "src/event_loop.rs"@,
                additions: Some(80),
                deletions: Some(0),
            },
            GitChangeV { status: GitChangeStatus::Unstaged, path: "src/main.rs"@, additions: Some(50), deletions: Some(20) },
            GitChangeV { status: GitChangeStatus::Untracked, path: "src/demo.rs"@, additions: None, deletions: None },
            GitChangeV { status: GitChangeStatus::Unstaged, path: "Cargo.toml"@, additions: Some(5), deletions: Some(2) },
        ],
        commits: seq![
            GitCommitV { hash: "abc1234"@, message: "feat: add App struct and event loop"@ },
            GitCommitV { hash: "def5678"@, message: "feat: add TestBackend render tests"@ },
            GitCommitV { hash: "ghi9012"@, message: "refactor: render(&mut self) migration"@ },
        ],
        worktrees: Seq::empty(),
        diff_stat: DiffStat { additions: 420, deletions: 35 },
    }
}

/// The stage of demo audit entry `i`.
pub open spec fn demo_stage_spec(i: int) -> Seq<char> {
    if i == 0 {
        "workspace-detection"@
    } else if i == 1 {
        "requirements-analysis"@
    } else if i == 2 {
        "user-stories"@
    } else if i == 3 {
        "workflow-planning"@
    } else if i == 4 {
        "application-design"@
    } else if i == 5 {
        "units-generation"@
    } else if i == 6 || i == 8 {
        "code-generation"@
    } else {
        "build-and-test"@
    }
}

/// Demo audit entry `i`: one a minute from 14:00, every third an approval.
pub open spec fn demo_audit_entry(i: int) -> AuditEntryV {
    AuditEntryV {
        timestamp: Some("2026-03-31T14:0"@.push(digit_char(i)) + ":00"@),
        stage: Some(demo_stage_spec(i)),
        choice: Some(
            if i % 3 == 0 {
                "B (Approve)"@
            } else {
                "B"@
            },
        ),
        raw_line: Seq::empty(),
    }
}

pub open spec fn demo_audit_spec() -> Seq<AuditEntryV> {
    Seq::new(10, |i: int| demo_audit_entry(i))
}

/// The agents after the demo's hook events at `now`: `explore-1` runs,
/// `plan-1` has finished, `old-agent` runs.
pub open spec fn demo_agents(p: AgentStatusV, now: u128) -> AgentStatusV {
    let a0 = AgentStatusV { hooks_active: true, ..p };
    let a1 = started_spec(a0, "explore-1"@, "Explore"@, now);
    let a2 = started_spec(a1, "plan-1"@, "Plan"@, now);
    let a3 = AgentStatusV { agents: mark_done(a2.agents, "plan-1"@), ..a2 };
    started_spec(a3, "old-agent"@, "code-review"@, now)
}

/// The app after the demo data is loaded at `now`.
pub open spec fn demo_app(a: AppV, now: u128) -> AppV {
    AppV {
        phase: "CONSTRUCTION"@,
        stage: "code-generation"@,
        workflow_map: WorkflowMapV {
            flow_state: demo_flow_state_spec(),
            session_summary: demo_summary_spec(),
            syncing: false,
            ..a.workflow_map
        },
        git_status: GitStatusV { snapshot: demo_snapshot_spec(), selected: clamp_selected(a.git_status.selected, 5) },
        audit_log: with_entries(a.audit_log, demo_audit_spec()),
        hooks_active: true,
        hooks_port: Some(9100u16),
        agent_status: demo_agents(a.agent_status, now),
        ..a
    }
}

// ---------------------------------------------------------------------
// Building it
// ---------------------------------------------------------------------

fn completed(name: &str) -> (r: CompletedStage)
    ensures
        r@ == (CompletedStageV { name: name@, timestamp: None }),
{
    CompletedStage { name: owned(name), timestamp: None }
}

fn work(text: &str, marker: WorkMarker) -> (r: WorkItem)
    ensures
        r@ == (WorkItemV { text: text@, marker }),
{
    WorkItem { text: owned(text), marker }
}

fn change(status: GitChangeStatus, path: &str, additions: Option<u32>, deletions: Option<u32>) -> (r: GitChange)
    ensures
        r@ == (GitChangeV { status, path: path@, additions, deletions }),
{
    GitChange { status, path: owned(path), additions, deletions }
}

fn commit(hash: &str, message: &str) -> (r: GitCommit)
    ensures
        r@ == (GitCommitV { hash: hash@, message: message@ }),
{
    GitCommit { hash: owned(hash), message: owned(message) }
}

fn demo_flow_state() -> (r: FlowState)
    ensures
        r@ == demo_flow_state_spec(),
{
    let mut s = FlowState::default();
    s.phase = Phase::Construction;
    s.stage = owned("code-generation");
    s.complexity = Complexity::Standard;
    let mut done: Vec<CompletedStage> = Vec::new();
    done.push(completed("workspace-detection"));
    done.push(completed("requirements-analysis"));
    done.push(completed("workflow-planning"));
    s.completed_stages = done;
    s.active_unit = Some(owned("Unit 11"));
    assert(s@.completed_stages =~= demo_flow_state_spec().completed_stages);
    s
}

fn demo_summary() -> (r: SessionSummary)
    ensures
        r@ == demo_summary_spec(),
{
    let mut s = SessionSummary::default();
    let mut w: Vec<WorkItem> = Vec::new();
    w.push(work("Phase 1: Foundation + Parser", WorkMarker::Done));
    w.push(work("Phase 2: Data Adapters", WorkMarker::Done));
    w.push(work("Phase 3: UI Panels", WorkMarker::InProgress));
    s.completed_work = w;
    let mut k: Vec<String> = Vec::new();
    k.push(owned("Approach B: layered unit decomposition"));
    k.push(owned("ratatui 0.30 + crossterm 0.29"));
    s.key_decisions = k;
    let mut n: Vec<String> = Vec::new();
    n.push(owned("Phase 4: App Integration"));
    s.next_steps = n;
    assert(s@.completed_work =~= demo_summary_spec().completed_work);
    assert(s@.key_decisions =~= demo_summary_spec().key_decisions);
    assert(s@.next_steps =~= demo_summary_spec().next_steps);
    s
}

fn demo_snapshot() -> (r: GitSnapshot)
    ensures
        r@ == demo_snapshot_spec(),
{
    let mut changes: Vec<GitChange> = Vec::new();
    changes.push(change(GitChangeStatus::Staged, "src/app.rs", Some(200), Some(0)));
    changes.push(change(GitChangeStatus::Staged, "src/event_loop.rs", Some(80), Some(0)));
    changes.push(change(GitChangeStatus::Unstaged, "src/main.rs", Some(50), Some(20)));
    changes.push(change(GitChangeStatus::Untracked, "src/demo.rs", None, None));
    changes.push(change(GitChangeStatus::Unstaged, "Cargo.toml", Some(5), Some(2)));
    let mut commits: Vec<GitCommit> = Vec::new();
    commits.push(commit("abc1234", "feat: add App struct and event loop"));
    commits.push(commit("def5678", "feat: add TestBackend render tests"));
    commits.push(commit("ghi9012", "refactor: render(&mut self) migration"));
    let r = GitSnapshot {
        branch: owned("feature/unit-11"),
        head: owned("abc1234"),
        changes,
        commits,
        worktrees: Vec::new(),
        diff_stat: DiffStat { additions: 420, deletions: 35 },
    };
    assert(r@.changes =~= demo_snapshot_spec().changes);
    assert(r@.commits =~= demo_snapshot_spec().commits);
    assert(r@.worktrees =~= demo_snapshot_spec().worktrees);
    r
}

fn demo_stage(i: usize) -> (r: &'static str)
    requires
        i < 10,
    ensures
        r@ == demo_stage_spec(i as int),
{
    if i == 0 {
        "workspace-detection"
    } else if i == 1 {
        "requirements-analysis"
    } else if i == 2 {
        "user-stories"
    } else if i == 3 {
        "workflow-planning"
    } else if i == 4 {
        "application-design"
    } else if i == 5 {
        "units-generation"
    } else if i == 6 || i == 8 {
        "code-generation"
    } else {
        "build-and-test"
    }
}

fn demo_audit() -> (r: Vec<AuditEntry>)
    ensures
        audit_views(r@) == demo_audit_spec(),
{
    let digits = chars_of("0123456789");
    proof {
        reveal_strlit("0123456789");
    }
    let mut out: Vec<AuditEntry> = Vec::new();
    let mut i: usize = 0;
    while i < 10
        invariant
            i <= 10,
            digits@ == "0123456789"@,
            digits@.len() == 10,
            audit_views(out@) == Seq::new(i as nat, |k: int| demo_audit_entry(k)),
        decreases 10 - i,
    {
        let mut ts = chars_of("2026-03-31T14:0");
        ts.push(digits[i]);
        push_str(&mut ts, ":00");
        let choice = if i % 3 == 0 {
            owned("B (Approve)")
        } else {
            owned("B")
        };
        let e = AuditEntry {
            timestamp: Some(string_of(&ts)),
            stage: Some(owned(demo_stage(i))),
            choice: Some(choice),
            raw_line: String::new(),
        };
        assert(e@ == demo_audit_entry(i as int));
        let ghost prev = out@;
        out.push(e);
        assert(audit_views(out@) =~= audit_views(prev).push(demo_audit_entry(i as int)));
        assert(audit_views(out@) =~= Seq::new((i + 1) as nat, |k: int| demo_audit_entry(k)));
        i = i + 1;
    }
    assert(audit_views(out@) =~= demo_audit_spec());
    out
}

/// Everything but the agents.
fn load_demo_panels(app: &mut App)
    ensures
        final(app)@ == (AppV {
            agent_status: AgentStatusV { hooks_active: true, ..old(app)@.agent_status },
            ..demo_app(old(app)@, 0)
        }),
{
    app.handle_flow_state(demo_flow_state());
    app.workflow_map.set_session_summary(demo_summary());
    app.handle_git_snapshot(demo_snapshot());
    app.audit_log.set_entries(demo_audit());
    app.hooks_active = true;
    app.hooks_port = Some(9100);
    app.agent_status.set_hooks_active(true);
}

/// The hook events of the demo's agents.
#[verifier::rlimit(40)]
fn load_demo_agents(app: &mut App, now: u128)
    requires
        old(app)@.agent_status.next_seq < u64::MAX - 3,
    ensures
        final(app)@ == (AppV {
            agent_status: {
                let a0 = old(app)@.agent_status;
                let a1 = started_spec(a0, "explore-1"@, "Explore"@, now);
                let a2 = started_spec(a1, "plan-1"@, "Plan"@, now);
                let a3 = AgentStatusV { agents: mark_done(a2.agents, "plan-1"@), ..a2 };
                started_spec(a3, "old-agent"@, "code-review"@, now)
            },
            ..old(app)@
        }),
{
    let ghost b = app@;
    app.handle_event(AppEvent::AgentStarted { agent_id: owned("explore-1"), agent_type: owned("Explore") }, now);
    let ghost c = app@;
    assert(c == AppV { agent_status: started_spec(b.agent_status, "explore-1"@, "Explore"@, now), ..b });
    app.handle_event(AppEvent::AgentStarted { agent_id: owned("plan-1"), agent_type: owned("Plan") }, now);
    let ghost d = app@;
    assert(d == AppV { agent_status: started_spec(c.agent_status, "plan-1"@, "Plan"@, now), ..c });
    app.handle_event(AppEvent::AgentStopped { agent_id: owned("plan-1") }, now);
    let ghost e = app@;
    assert(e == AppV {
        agent_status: AgentStatusV { agents: mark_done(d.agent_status.agents, "plan-1"@), ..d.agent_status },
        ..d
    });
    app.handle_event(AppEvent::AgentStarted { agent_id: owned("old-agent"), agent_type: owned("code-review") }, now);
}

/// Fill the app with the sample data at `now`: a construction-phase flow
/// state, a session summary, a git snapshot, ten audit entries, hooks shown
/// as active on port 9100, and three agents of which one has finished.
pub fn populate_demo_data(app: &mut App, now: u128)
    requires
        old(app)@.agent_status.next_seq < u64::MAX - 3,
    ensures
        final(app)@ == demo_app(old(app)@, now),
{
    load_demo_panels(app);
    load_demo_agents(app, now);
}

} // verus!
