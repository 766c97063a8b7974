use devflow_tui::event::AppEvent;
use devflow_tui::panel::agent_status::AgentStatusPanel;
use devflow_tui::panel::audit_log::AuditLogPanel;
use devflow_tui::panel::gate_alert::GateAlertPanel;
use devflow_tui::panel::git_status::GitStatusPanel;
use devflow_tui::panel::workflow_map::WorkflowMapPanel;
use devflow_tui::parser::models::{
    AuditEntry, DiffStat, GitChange, GitChangeStatus, GitCommit, GitSnapshot, GitWorktree, SessionSummary,
    WorkItem, WorkMarker,
};
use devflow_tui::ui::view::{Span, Tone};

const SEC: u128 = 1_000_000_000;

fn texts(line: &[Span]) -> Vec<&str> {
    line.iter().map(|s| s.text.as_str()).collect()
}

fn tones(line: &[Span]) -> Vec<Tone> {
    line.iter().map(|s| s.tone).collect()
}

#[test]
fn agent_rows_newest_first_with_elapsed_and_footer() {
    let mut panel = AgentStatusPanel::new();
    panel.set_hooks_active(true);
    panel.handle_event(&AppEvent::AgentStarted { agent_id: "a1".to_string(), agent_type: "Explore".to_string() }, 0);
    panel.handle_event(&AppEvent::AgentStarted { agent_id: "a2".to_string(), agent_type: "doc-writer-longer".to_string() }, 2 * SEC);
    panel.handle_event(&AppEvent::AgentStopped { agent_id: "a1".to_string() }, 3 * SEC);
    let rows = panel.rows(7 * SEC);
    assert_eq!(rows.len(), 2);
    assert_eq!(texts(&rows[0]), vec!["  ● ", "doc-writer-longer", " 5s"]);
    assert_eq!(tones(&rows[0]), vec![Tone::Active, Tone::Active, Tone::Dim]);
    assert_eq!(texts(&rows[1]), vec!["  ✓ ", "Explore   ", " done"]);
    assert_eq!(panel.footer(), "  Total: 2 (1 running)");
    assert!(panel.placeholder().is_none());
}

#[test]
fn agent_timeout_row_and_placeholders() {
    let mut panel = AgentStatusPanel::new();
    let hint = panel.placeholder().unwrap();
    assert_eq!(hint.len(), 5);
    assert_eq!(texts(&hint[2]), vec!["  hooks 설정이 필요합니다"]);
    panel.set_hooks_active(true);
    let waiting = panel.placeholder().unwrap();
    assert_eq!(texts(&waiting[0]), vec!["  대기 중..."]);
    panel.handle_event(&AppEvent::AgentStarted { agent_id: "x".to_string(), agent_type: "Plan".to_string() }, 0);
    panel.check_timeouts(61 * SEC);
    let rows = panel.rows(61 * SEC);
    assert_eq!(texts(&rows[0]), vec!["  ⏱ ", "Plan      ", " t/o"]);
    assert_eq!(tones(&rows[0])[0], Tone::Timeout);
}

#[test]
fn audit_rows_show_fields_or_raw_line() {
    let full = AuditEntry {
        timestamp: Some("2026-01-01T10:00:00Z".to_string()),
        stage: Some("requirements-analysis".to_string()),
        choice: Some("B) Approve".to_string()),
        raw_line: String::new(),
    };
    let row = AuditLogPanel::format_entry(&full);
    assert_eq!(texts(&row), vec!["  2026-01-01T10:00:00Z ", "requirements-analysis", " → ", "B) Approve"]);
    assert_eq!(tones(&row), vec![Tone::Timestamp, Tone::Bold, Tone::Dim, Tone::Done]);
    let skip = AuditEntry { timestamp: None, stage: None, choice: Some("A) skip it".to_string()), raw_line: String::new() };
    assert_eq!(tones(&AuditLogPanel::format_entry(&skip)), vec![Tone::Dim, Tone::Skipped]);
    let raw = AuditEntry { timestamp: None, stage: None, choice: None, raw_line: "free text".to_string() };
    let row = AuditLogPanel::format_entry(&raw);
    assert_eq!(texts(&row), vec!["  free text"]);
    assert_eq!(tones(&row), vec![Tone::Dim]);
}

#[test]
fn gate_lines_follow_the_panel_state() {
    let mut panel = GateAlertPanel::new();
    panel.set_next_steps(vec!["Run tests".to_string()]);
    let l = panel.lines();
    assert_eq!(l.len(), 6);
    assert_eq!(texts(&l[4]), vec!["  Next Steps:"]);
    assert_eq!(texts(&l[5]), vec!["    Run tests"]);

    panel.set_hooks_active(true);
    let l = panel.lines();
    assert_eq!(l.len(), 1);
    assert_eq!(texts(&l[0]), vec!["  대기 중..."]);

    panel.activate_gate("Proceed?".to_string(), vec!["A) Yes".to_string(), "B) No".to_string()]);
    let l = panel.lines();
    let all: Vec<Vec<&str>> = l.iter().map(|x| texts(x)).collect();
    assert_eq!(
        all,
        vec![vec!["  ▶ GATE "], vec![], vec!["  Proceed?"], vec![], vec!["  A) Yes"], vec!["  B) No"]]
    );

    panel.activate_gate(String::new(), Vec::new());
    let l = panel.lines();
    assert_eq!(texts(l.last().unwrap()), vec!["  사용자 입력 대기 중"]);
}

#[test]
fn git_lines_show_snapshot() {
    let mut panel = GitStatusPanel::new();
    panel.set_snapshot(GitSnapshot {
        branch: "main".to_string(),
        head: "abc1234".to_string(),
        changes: vec![
            GitChange { status: GitChangeStatus::Staged, path: "src/a.rs".to_string(), additions: Some(3), deletions: Some(1) },
            GitChange { status: GitChangeStatus::Conflict, path: "b.rs".to_string(), additions: None, deletions: None },
        ],
        commits: vec![GitCommit { hash: "abc1234".to_string(), message: "first".to_string() }],
        worktrees: vec![GitWorktree { path: "/wt".to_string(), branch: None, is_current: false }],
        diff_stat: DiffStat { additions: 12, deletions: 4 },
    });
    let h = panel.header_lines();
    assert_eq!(texts(&h[0]), vec!["  Branch: ", "main"]);
    assert_eq!(texts(&h[2]), vec!["  Diff:   ", "+12", " / ", "-4"]);
    let c = panel.change_rows();
    assert_eq!(texts(&c[0]), vec!["  S ", "src/a.rs", " +3 -1"]);
    assert_eq!(texts(&c[1]), vec!["  C! ", "b.rs", ""]);
    assert_eq!(tones(&c[1])[0], Tone::Conflict);
    let b = panel.bottom_lines();
    let all: Vec<Vec<&str>> = b.iter().map(|x| texts(x)).collect();
    assert_eq!(
        all,
        vec![
            vec!["  Commits:"],
            vec!["    abc1234 ", "first"],
            vec![],
            vec!["  Worktrees:"],
            vec!["    ", "(detached)", "  /wt"],
        ]
    );
}

#[test]
fn workflow_lines_show_trees_and_summary() {
    let mut panel = WorkflowMapPanel::new();
    panel.flow_state.stage = "requirements-analysis".to_string();
    panel.flow_state.active_unit = Some("unit-02".to_string());
    panel.set_session_summary(SessionSummary {
        completed_work: vec![WorkItem { text: "Parser".to_string(), marker: WorkMarker::Done }],
        key_decisions: vec!["Use ratatui".to_string()],
        next_steps: vec!["Write tests".to_string()],
        ..SessionSummary::default()
    });
    let l = panel.lines();
    let all: Vec<String> = l.iter().map(|x| texts(x).concat()).collect();
    assert_eq!(all[0], "  INCEPTION");
    assert_eq!(all[1], "  ├── ○ workspace-detection");
    assert_eq!(all[3], "  ├── ● requirements-analysis");
    assert!(all.contains(&"  └── ○ workflow-planning".to_string()));
    assert!(all.contains(&"  CONSTRUCTION".to_string()));
    assert!(all.contains(&"  └── ○ finishing-branch".to_string()));
    assert!(all.contains(&"    ✓ Parser".to_string()));
    assert!(all.contains(&"    • Use ratatui".to_string()));
    assert!(all.contains(&"    Write tests".to_string()));
    assert_eq!(all.last().unwrap(), "  Active Unit: unit-02");
    panel.set_syncing();
    let l = panel.lines();
    assert_eq!(texts(&l[0]), vec!["  Syncing..."]);
}
