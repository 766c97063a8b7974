use devflow_tui::event::AppEvent;
use devflow_tui::panel::agent_status::AgentStatusPanel;
use devflow_tui::panel::audit_log::AuditLogPanel;
use devflow_tui::panel::gate_alert::GateAlertPanel;
use devflow_tui::panel::git_status::GitStatusPanel;
use devflow_tui::panel::workflow_map::WorkflowMapPanel;
use devflow_tui::parser::models::{
    AuditEntry, CompletedStage, Complexity, DeferredStage, DiffStat, GitChange, GitChangeStatus, GitCommit,
    GitSnapshot, GitWorktree, WorkItem, WorkMarker,
};
use devflow_tui::ui::header::{hooks_banner, status_hints};
use devflow_tui::ui::theme::panel_title;
use devflow_tui::ui::view::Span;

const SEC: u128 = 1_000_000_000;

fn text_of(lines: &[Vec<Span>]) -> String {
    lines
        .iter()
        .map(|l| l.iter().map(|s| s.text.as_str()).collect::<String>())
        .collect::<Vec<_>>()
        .join("\n")
}

fn agent_text(panel: &AgentStatusPanel, now: u128) -> String {
    match panel.placeholder() {
        Some(lines) => text_of(&lines),
        None => format!("{}\n{}", text_of(&panel.rows(now)), panel.footer()),
    }
}

fn git_text(panel: &GitStatusPanel) -> String {
    format!(
        "{}\n{}\n{}",
        text_of(&panel.header_lines()),
        text_of(&panel.change_rows()),
        text_of(&panel.bottom_lines())
    )
}

fn started(panel: &mut AgentStatusPanel, id: &str, ty: &str, now: u128) {
    panel.handle_event(&AppEvent::AgentStarted { agent_id: id.to_string(), agent_type: ty.to_string() }, now);
}

fn stopped(panel: &mut AgentStatusPanel, id: &str) {
    panel.handle_event(&AppEvent::AgentStopped { agent_id: id.to_string() }, 0);
}

// ── Agent status ──

#[test]
fn agent_status_render_hooks_inactive() {
    let panel = AgentStatusPanel::new();
    assert!(agent_text(&panel, 0).contains("hooks 설정이 필요합니다"));
}

#[test]
fn render_empty_agents() {
    let mut panel = AgentStatusPanel::new();
    panel.set_hooks_active(true);
    assert!(agent_text(&panel, 0).contains("대기 중..."));
}

#[test]
fn render_with_running_agent() {
    let mut panel = AgentStatusPanel::new();
    panel.set_hooks_active(true);
    started(&mut panel, "a1", "Explore", 0);
    let text = agent_text(&panel, 0);
    assert!(text.contains("●"));
    assert!(text.contains("Explore"));
}

#[test]
fn render_with_done_agent() {
    let mut panel = AgentStatusPanel::new();
    panel.set_hooks_active(true);
    started(&mut panel, "a1", "Plan", 0);
    stopped(&mut panel, "a1");
    let text = agent_text(&panel, 0);
    assert!(text.contains("✓"));
    assert!(text.contains("done"));
}

#[test]
fn render_with_timeout_agent() {
    let mut panel = AgentStatusPanel::new();
    panel.set_hooks_active(true);
    started(&mut panel, "old", "Plan", 0);
    panel.check_timeouts(61 * SEC);
    let text = agent_text(&panel, 61 * SEC);
    assert!(text.contains("⏱"));
    assert!(text.contains("t/o"));
}

#[test]
fn render_footer_count() {
    let mut panel = AgentStatusPanel::new();
    panel.set_hooks_active(true);
    started(&mut panel, "a1", "Explore", 0);
    started(&mut panel, "a2", "Plan", 0);
    stopped(&mut panel, "a1");
    assert!(agent_text(&panel, 0).contains("Total: 2 (1 running)"));
}

// ── Gate alert ──

#[test]
fn gate_alert_render_hooks_inactive() {
    let panel = GateAlertPanel::new();
    assert!(text_of(&panel.lines()).contains("hooks 설정이 필요합니다"));
}

#[test]
fn render_hooks_inactive_with_next_steps() {
    let mut panel = GateAlertPanel::new();
    panel.set_next_steps(vec!["Phase 4 시작".to_string()]);
    let text = text_of(&panel.lines());
    assert!(text.contains("Next Steps:"));
    assert!(text.contains("Phase 4"));
}

#[test]
fn render_no_gate() {
    let mut panel = GateAlertPanel::new();
    panel.set_hooks_active(true);
    assert!(text_of(&panel.lines()).contains("대기 중..."));
}

#[test]
fn render_active_gate() {
    let mut panel = GateAlertPanel::new();
    panel.set_hooks_active(true);
    panel.activate_gate("Choose an option".to_string(), vec!["A) First".to_string(), "B) Second".to_string()]);
    let text = text_of(&panel.lines());
    assert!(text.contains("▶"));
    assert!(text.contains("GATE"));
    assert!(text.contains("A) First"));
    assert!(text.contains("B) Second"));
}

#[test]
fn render_generic_gate_ask_user() {
    let mut panel = GateAlertPanel::new();
    panel.set_hooks_active(true);
    panel.activate_gate("사용자 입력 대기 중".to_string(), Vec::new());
    let text = text_of(&panel.lines());
    assert!(text.contains("▶"));
    assert!(text.contains("사용자 입력 대기 중"));
}

// ── Git status ──

#[test]
fn render_empty_snapshot_no_panic() {
    let panel = GitStatusPanel::new();
    let _ = git_text(&panel);
}

#[test]
fn render_branch_and_head() {
    let mut panel = GitStatusPanel::new();
    panel.set_snapshot(GitSnapshot {
        branch: "feature/test".to_string(),
        head: "abc1234".to_string(),
        ..Default::default()
    });
    let text = git_text(&panel);
    assert!(text.contains("feature/test"));
    assert!(text.contains("abc1234"));
}

#[test]
fn render_diff_stat() {
    let mut panel = GitStatusPanel::new();
    panel.set_snapshot(GitSnapshot { diff_stat: DiffStat { additions: 10, deletions: 5 }, ..Default::default() });
    let text = git_text(&panel);
    assert!(text.contains("+10"));
    assert!(text.contains("-5"));
}

#[test]
fn render_staged_change() {
    let mut panel = GitStatusPanel::new();
    panel.set_snapshot(GitSnapshot {
        changes: vec![GitChange {
            status: GitChangeStatus::Staged,
            path: "src/main.rs".to_string(),
            additions: Some(3),
            deletions: Some(1),
        }],
        ..Default::default()
    });
    let text = git_text(&panel);
    assert!(text.contains("S"));
    assert!(text.contains("src/main.rs"));
}

#[test]
fn render_unstaged_change() {
    let mut panel = GitStatusPanel::new();
    panel.set_snapshot(GitSnapshot {
        changes: vec![GitChange {
            status: GitChangeStatus::Unstaged,
            path: "lib.rs".to_string(),
            additions: None,
            deletions: None,
        }],
        ..Default::default()
    });
    let text = git_text(&panel);
    assert!(text.contains("M"));
    assert!(text.contains("lib.rs"));
}

#[test]
fn render_commits() {
    let mut panel = GitStatusPanel::new();
    panel.set_snapshot(GitSnapshot {
        commits: vec![GitCommit { hash: "deadbeef".to_string(), message: "fix: resolve crash".to_string() }],
        ..Default::default()
    });
    let text = git_text(&panel);
    assert!(text.contains("deadbeef"));
    assert!(text.contains("fix: resolve crash"));
}

#[test]
fn render_worktrees_visible() {
    let mut panel = GitStatusPanel::new();
    panel.set_snapshot(GitSnapshot {
        commits: vec![GitCommit { hash: "abc1234".to_string(), message: "init".to_string() }],
        worktrees: vec![GitWorktree {
            path: "/tmp/wt".to_string(),
            branch: Some("feature/wt".to_string()),
            is_current: false,
        }],
        ..Default::default()
    });
    let text = git_text(&panel);
    assert!(text.contains("Worktrees:"));
    assert!(text.contains("feature/wt"));
}

// ── Audit log ──

fn make_entries(n: usize) -> Vec<AuditEntry> {
    (0..n)
        .map(|i| AuditEntry {
            timestamp: Some(format!("2026-03-30T14:{i:02}")),
            stage: Some(format!("stage-{i}")),
            choice: Some("B (Approve)".to_string()),
            raw_line: String::new(),
        })
        .collect()
}

fn audit_text(panel: &AuditLogPanel) -> String {
    text_of(&panel.entries().iter().map(AuditLogPanel::format_entry).collect::<Vec<_>>())
}

#[test]
fn render_with_entries() {
    let mut panel = AuditLogPanel::new_with_cap(1000);
    panel.set_entries(make_entries(3));
    let text = audit_text(&panel);
    assert!(text.contains("stage-0"));
    assert!(text.contains("Approve"));
}

#[test]
fn render_focused_border() {
    assert!(panel_title("Audit Log", true).contains("[ Audit Log ]"));
}

#[test]
fn render_unfocused_border() {
    assert!(panel_title("Audit Log", false).contains("  Audit Log  "));
}

#[test]
fn render_raw_entry() {
    let mut panel = AuditLogPanel::new_with_cap(1000);
    panel.set_entries(vec![AuditEntry {
        timestamp: None,
        stage: None,
        choice: None,
        raw_line: "some raw log text".to_string(),
    }]);
    assert!(audit_text(&panel).contains("some raw log text"));
}

// ── Workflow map ──

#[test]
fn workflow_map_render_default_state() {
    let panel = WorkflowMapPanel::new();
    let text = text_of(&panel.lines());
    assert!(text.contains("INCEPTION"));
    assert!(text.contains("CONSTRUCTION"));
    assert!(text.contains("○"));
}

#[test]
fn render_active_stage() {
    let mut panel = WorkflowMapPanel::new();
    panel.flow_state.stage = "requirements-analysis".to_string();
    let text = text_of(&panel.lines());
    assert!(text.contains("●"));
    assert!(text.contains("requirements-analysis"));
}

#[test]
fn render_completed_stage() {
    let mut panel = WorkflowMapPanel::new();
    panel.flow_state.completed_stages.push(CompletedStage { name: "workspace-detection".to_string(), timestamp: None });
    let text = text_of(&panel.lines());
    assert!(text.contains("✓"));
    assert!(text.contains("workspace-detection"));
}

#[test]
fn render_minimal_complexity() {
    let mut panel = WorkflowMapPanel::new();
    panel.flow_state.complexity = Complexity::Minimal;
    let text = text_of(&panel.lines());
    assert!(!text.contains("user-stories"));
    assert!(text.contains("workspace-detection"));
}

#[test]
fn render_comprehensive_complexity() {
    let mut panel = WorkflowMapPanel::new();
    panel.flow_state.complexity = Complexity::Comprehensive;
    let text = text_of(&panel.lines());
    assert!(text.contains("application-design"));
    assert!(text.contains("units-generation"));
}

#[test]
fn render_new_construction_stages() {
    let mut panel = WorkflowMapPanel::new();
    panel.flow_state.complexity = Complexity::Minimal;
    let text = text_of(&panel.lines());
    assert!(text.contains("git-worktree"));
    assert!(text.contains("code-review"));
    assert!(text.contains("finishing-branch"));
}

#[test]
fn render_syncing_state() {
    let mut panel = WorkflowMapPanel::new();
    panel.set_syncing();
    assert!(text_of(&panel.lines()).contains("Syncing..."));
}

#[test]
fn render_deferred_stage() {
    let mut panel = WorkflowMapPanel::new();
    panel.flow_state.complexity = Complexity::Standard;
    panel.flow_state.deferred_stages.push(DeferredStage { name: "user-stories".to_string(), reason: None });
    let text = text_of(&panel.lines());
    assert!(text.contains("◇"));
    assert!(text.contains("user-stories"));
}

#[test]
fn render_completed_work_and_decisions() {
    let mut panel = WorkflowMapPanel::new();
    panel.session_summary.completed_work.push(WorkItem { text: "Setup project".to_string(), marker: WorkMarker::Done });
    panel.session_summary.key_decisions.push("Use ratatui".to_string());
    let text = text_of(&panel.lines());
    assert!(text.contains("Completed Work:"));
    assert!(text.contains("Setup project"));
    assert!(text.contains("Key Decisions:"));
    assert!(text.contains("Use ratatui"));
}

// ── Header and status bar texts ──

#[test]
fn render_hooks_active_with_port() {
    let text = hooks_banner(true, Some(9464));
    assert!(text.contains("Hooks: ●"));
    assert!(text.contains("9464"));
}

#[test]
fn render_hooks_active_no_port() {
    let text = hooks_banner(true, None);
    assert!(text.contains("Hooks: ●"));
    assert!(!text.contains("9464"));
}

#[test]
fn render_wide_mode_has_direction_hint() {
    assert!(status_hints(true).iter().any(|(k, _)| *k == "C-hjkl"));
}

#[test]
fn render_narrow_mode_no_direction_hint() {
    assert!(!status_hints(false).iter().any(|(k, _)| *k == "C-hjkl"));
}

#[test]
fn git_section_heights() {
    let mut panel = GitStatusPanel::new();
    assert_eq!(panel.section_heights(20), (3, 15, 2));
    let commit = |h: &str| GitCommit { hash: h.to_string(), message: "m".to_string() };
    panel.set_snapshot(GitSnapshot {
        commits: (0..7).map(|i| commit(&i.to_string())).collect(),
        worktrees: vec![GitWorktree { path: "/tmp/wt".to_string(), branch: None, is_current: false }],
        ..Default::default()
    });
    assert_eq!(panel.section_heights(20), (3, 7, 10));
    assert_eq!(panel.section_heights(8), (3, 0, 10));
}
