use devflow_tui::event::AppEvent;
use devflow_tui::input::{KeyCode, KeyEvent};
use devflow_tui::panel::agent_status::AgentStatusPanel;
use devflow_tui::panel::artifact_preview::{ActivePane, ArtifactPreviewPanel, MAX_PREVIEW_LINES};
use devflow_tui::panel::audit_log::{
    buffer_cap_setting, choice_tone, AuditLogPanel, ChoiceTone, DEFAULT_BUFFER_CAP, MAX_BUFFER_CAP, MIN_BUFFER_CAP,
};
use devflow_tui::panel::git_status::GitStatusPanel;
use devflow_tui::panel::token_usage::TokenUsagePanel;
use devflow_tui::panel::workflow_map::{construction_stages, StageInfo, WorkflowMapPanel};
use devflow_tui::parser::models::{
    ArtifactFile, AuditEntry, CompletedStage, Complexity, DeferredStage, GitChange,
    GitChangeStatus, GitSnapshot, StageStatus, TokenRecord, TokenSnapshot,
};

fn key(c: KeyCode) -> KeyEvent {
    KeyEvent::plain(c)
}

// ── workflow map ──

#[test]
fn test_stage_status_active() {
    let mut panel = WorkflowMapPanel::new();
    panel.flow_state.stage = "requirements-analysis".to_string();
    assert_eq!(panel.stage_status("requirements-analysis"), StageStatus::Active);
}

#[test]
fn test_stage_status_completed() {
    let mut panel = WorkflowMapPanel::new();
    panel.flow_state.completed_stages.push(CompletedStage {
        name: "workspace-detection".to_string(),
        timestamp: None,
    });
    assert_eq!(panel.stage_status("workspace-detection"), StageStatus::Completed);
}

#[test]
fn test_visibility_minimal() {
    let mut panel = WorkflowMapPanel::new();
    panel.flow_state.complexity = Complexity::Minimal;
    let info = StageInfo { name: "user-stories", min_complexity: Some(Complexity::Standard) };
    assert!(!panel.is_visible(&info));
}

#[test]
fn test_visibility_standard() {
    let mut panel = WorkflowMapPanel::new();
    panel.flow_state.complexity = Complexity::Standard;
    let info = StageInfo { name: "user-stories", min_complexity: Some(Complexity::Standard) };
    assert!(panel.is_visible(&info));
}

#[test]
fn test_construction_stages_count() {
    assert_eq!(construction_stages().len(), 6);
}

#[test]
fn test_construction_stages_order() {
    let names: Vec<&str> = construction_stages().iter().map(|s| s.name).collect();
    assert_eq!(
        names,
        vec![
            "functional-design",
            "git-worktree",
            "code-generation",
            "build-and-test",
            "code-review",
            "finishing-branch",
        ]
    );
}

#[test]
fn test_new_construction_stages_visible_all_complexities() {
    let new_stages = ["git-worktree", "code-review", "finishing-branch"];
    for complexity in [Complexity::Minimal, Complexity::Standard, Complexity::Comprehensive] {
        let mut panel = WorkflowMapPanel::new();
        panel.flow_state.complexity = complexity;
        let stages = construction_stages();
        for stage_name in &new_stages {
            let info = stages.iter().find(|s| s.name == *stage_name).unwrap();
            assert!(panel.is_visible(info), "{stage_name} should be visible at {complexity:?}");
        }
    }
}

#[test]
fn test_stage_status_deferred() {
    let mut panel = WorkflowMapPanel::new();
    panel.flow_state.deferred_stages.push(DeferredStage {
        name: "user-stories".to_string(),
        reason: Some("Deferred to wave 2".to_string()),
    });
    assert_eq!(panel.stage_status("user-stories"), StageStatus::Deferred);
}

#[test]
fn test_stage_rows_hide_by_complexity_and_active_wins() {
    let mut panel = WorkflowMapPanel::new();
    panel.flow_state.complexity = Complexity::Minimal;
    panel.flow_state.stage = "git-worktree".to_string();
    panel.flow_state.completed_stages.push(CompletedStage { name: "git-worktree".to_string(), timestamp: None });
    let rows = panel.stage_rows(&construction_stages());
    assert_eq!(rows.len(), 5);
    assert_eq!(rows[0].0, "git-worktree");
    assert_eq!(rows[0].1, StageStatus::Active);
    assert_eq!(rows[1].1, StageStatus::Waiting);
}

#[test]
fn test_workflow_keys_and_syncing() {
    let mut panel = WorkflowMapPanel::new();
    assert!(panel.handle_key(key(KeyCode::Char('k'))).is_none());
    assert_eq!(panel.scroll_offset, 0);
    panel.handle_key(key(KeyCode::Down));
    assert_eq!(panel.scroll_offset, 1);
    assert!(panel.handle_key(key(KeyCode::Enter)).is_some());
    panel.handle_event(&AppEvent::ParseError { file: "f".to_string(), error: "e".to_string() });
    assert!(panel.syncing);
    panel.handle_event(&AppEvent::FlowStateChanged(Default::default()));
    assert!(!panel.syncing);
}

// ── token usage ──

fn make_snapshot(input: u64, output: u64, cache_create: u64, cache_read: u64, turns: u32) -> TokenSnapshot {
    TokenSnapshot {
        cumulative: TokenRecord {
            input_tokens: input,
            output_tokens: output,
            cache_creation_input_tokens: cache_create,
            cache_read_input_tokens: cache_read,
        },
        turn_count: turns,
        recent_turns: Vec::new(),
    }
}

#[test]
fn test_handle_event_updates_snapshot() {
    let mut panel = TokenUsagePanel::new();
    let snapshot = make_snapshot(100, 50, 0, 0, 1);
    panel.handle_event(&AppEvent::TokenUsageUpdated(snapshot));
    assert_eq!(panel.snapshot.cumulative.input_tokens, 100);
    assert_eq!(panel.snapshot.turn_count, 1);
}

#[test]
fn test_handle_event_ignores_other_events() {
    let mut panel = TokenUsagePanel::new();
    panel.handle_event(&AppEvent::GitPollError { error: "test".to_string() });
    assert_eq!(panel.snapshot.turn_count, 0);
}

#[test]
fn test_scroll_keys() {
    let mut panel = TokenUsagePanel::new();
    panel.set_snapshot(make_snapshot(100_000, 50_000, 200_000, 300_000, 5));
    assert_eq!(panel.scroll_offset, 0);
    panel.handle_key(key(KeyCode::Char('j')));
    assert_eq!(panel.scroll_offset, 1);
    panel.handle_key(key(KeyCode::Char('k')));
    assert_eq!(panel.scroll_offset, 0);
    panel.handle_key(key(KeyCode::Char('k')));
    assert_eq!(panel.scroll_offset, 0);
}

#[test]
fn test_token_scroll_clamped_to_lines() {
    let mut panel = TokenUsagePanel::new();
    panel.handle_key(key(KeyCode::Char('j')));
    assert_eq!(panel.scroll_offset, 0);
    panel.set_snapshot(make_snapshot(1, 1, 0, 0, 1));
    for _ in 0..20 {
        panel.handle_key(key(KeyCode::Down));
    }
    assert_eq!(panel.scroll_offset, 6);
}

// ── artifact preview ──

fn file(path: &str, name: &str) -> ArtifactFile {
    ArtifactFile { path: path.to_string(), name: name.to_string() }
}

#[test]
fn test_new_panel_empty() {
    let panel = ArtifactPreviewPanel::new();
    assert!(panel.files().is_empty());
}

#[test]
fn test_handle_artifact_list_event() {
    let mut panel = ArtifactPreviewPanel::new();
    let files = vec![file("/tmp/a.md", "a.md"), file("/tmp/b.md", "b.md")];
    panel.handle_event(&AppEvent::ArtifactListChanged(files));
    assert_eq!(panel.files().len(), 2);
    assert_eq!(panel.files()[0].name, "a.md");
}

#[test]
fn test_scroll_file_list() {
    let mut panel = ArtifactPreviewPanel::new();
    let files = vec![file("/tmp/a.md", "a.md"), file("/tmp/b.md", "b.md"), file("/tmp/c.md", "c.md")];
    panel.handle_event(&AppEvent::ArtifactListChanged(files));
    assert_eq!(panel.selected_index(), 0);
    panel.handle_key(key(KeyCode::Char('j')));
    assert_eq!(panel.selected_index(), 1);
    panel.handle_key(key(KeyCode::Char('j')));
    assert_eq!(panel.selected_index(), 2);
    panel.handle_key(key(KeyCode::Char('j')));
    assert_eq!(panel.selected_index(), 2);
    panel.handle_key(key(KeyCode::Char('k')));
    assert_eq!(panel.selected_index(), 1);
}

#[test]
fn test_select_file_loads_content() {
    let mut panel = ArtifactPreviewPanel::new();
    panel.handle_event(&AppEvent::ArtifactListChanged(vec![file("/tmp/test.md", "test.md")]));
    panel.handle_key(key(KeyCode::Enter));
    assert_eq!(panel.take_pending_load().as_deref(), Some("/tmp/test.md"));
    panel.finish_load(Ok(vec![Some("# Hello".to_string()), Some("World".to_string())]));
    assert_eq!(panel.preview_content().map(|s| s.as_str()), Some("# Hello\nWorld"));
    assert_eq!(panel.active_pane(), ActivePane::Preview);
}

#[test]
fn test_select_file_read_error() {
    let mut panel = ArtifactPreviewPanel::new();
    panel.handle_event(&AppEvent::ArtifactListChanged(vec![file("/nonexistent/file.md", "file.md")]));
    panel.handle_key(key(KeyCode::Enter));
    assert!(panel.take_pending_load().is_some());
    panel.finish_load(Err("No such file or directory (os error 2)".to_string()));
    let content = panel.preview_content().unwrap();
    assert!(content.contains("Error"));
}

#[test]
fn test_preview_strips_escapes_and_skips_unreadable_lines() {
    let mut panel = ArtifactPreviewPanel::new();
    panel.finish_load(Ok(vec![Some("\x1b[1mA\x1b[0m".to_string()), None, Some("B".to_string())]));
    assert_eq!(panel.preview_content().map(|s| s.as_str()), Some("A\nB"));
}

#[test]
fn test_tab_switches_pane() {
    let mut panel = ArtifactPreviewPanel::new();
    assert_eq!(panel.active_pane(), ActivePane::FileList);
    panel.handle_key(key(KeyCode::Tab));
    assert_eq!(panel.active_pane(), ActivePane::Preview);
    panel.handle_key(key(KeyCode::Tab));
    assert_eq!(panel.active_pane(), ActivePane::FileList);
}

#[test]
fn test_preview_scroll() {
    let mut panel = ArtifactPreviewPanel::new();
    panel.handle_event(&AppEvent::ArtifactListChanged(vec![file("/tmp/long.md", "long.md")]));
    panel.handle_key(key(KeyCode::Enter));
    assert_eq!(panel.active_pane(), ActivePane::Preview);
    assert_eq!(panel.preview_scroll(), 0);
    panel.handle_key(key(KeyCode::Char('j')));
    assert_eq!(panel.preview_scroll(), 1);
    panel.handle_key(key(KeyCode::Char('k')));
    assert_eq!(panel.preview_scroll(), 0);
    panel.handle_key(key(KeyCode::Char('k')));
    assert_eq!(panel.preview_scroll(), 0);
}

#[test]
fn test_artifact_list_update_clamps_selection() {
    let mut panel = ArtifactPreviewPanel::new();
    let files = vec![file("/tmp/a.md", "a.md"), file("/tmp/b.md", "b.md"), file("/tmp/c.md", "c.md")];
    panel.handle_event(&AppEvent::ArtifactListChanged(files));
    panel.handle_key(key(KeyCode::Char('j')));
    panel.handle_key(key(KeyCode::Char('j')));
    assert_eq!(panel.selected_index(), 2);
    panel.handle_event(&AppEvent::ArtifactListChanged(vec![file("/tmp/a.md", "a.md")]));
    assert_eq!(panel.selected_index(), 0);
}

// ── audit log panel ──

fn make_entries(n: usize) -> Vec<AuditEntry> {
    (0..n)
        .map(|i| AuditEntry {
            timestamp: Some(format!("2026-03-30T14:{i:02}")),
            stage: Some(format!("stage-{i}")),
            choice: Some("B (Approve)".to_string()),
            raw_line: String::new(),
        })
        .collect()
}

#[test]
fn test_buffer_cap() {
    let mut panel = AuditLogPanel::new_with_cap(200);
    assert_eq!(panel.buffer_cap(), 200);
    panel.set_entries(make_entries(300));
    assert_eq!(panel.entries().len(), 200);
    assert_eq!(panel.entries()[0].stage.as_deref(), Some("stage-100"));
}

#[test]
fn test_buffer_cap_clamp_lower() {
    let panel = AuditLogPanel::new_with_cap(5);
    assert_eq!(panel.buffer_cap(), MIN_BUFFER_CAP);
}

#[test]
fn test_buffer_cap_clamp_upper() {
    let panel = AuditLogPanel::new_with_cap(usize::MAX);
    assert_eq!(panel.buffer_cap(), MAX_BUFFER_CAP);
}

#[test]
fn test_auto_scroll() {
    let mut panel = AuditLogPanel::new_with_cap(1000);
    panel.set_entries(make_entries(5));
    assert_eq!(panel.selected(), Some(4));
    assert!(panel.auto_scroll());
}

#[test]
fn test_manual_scroll_disables_auto() {
    let mut panel = AuditLogPanel::new_with_cap(1000);
    panel.set_entries(make_entries(10));
    panel.handle_key(key(KeyCode::Char('k')));
    assert!(!panel.auto_scroll());
}

#[test]
fn test_jump_to_bottom_re_enables_auto() {
    let mut panel = AuditLogPanel::new_with_cap(1000);
    panel.set_entries(make_entries(10));
    panel.handle_key(key(KeyCode::Char('k')));
    assert!(!panel.auto_scroll());
    panel.handle_key(key(KeyCode::Char('G')));
    assert!(panel.auto_scroll());
    assert_eq!(panel.selected(), Some(9));
}

#[test]
fn test_choice_tones() {
    assert_eq!(choice_tone("B (Approve)"), ChoiceTone::Done);
    assert_eq!(choice_tone("A (Approve changes)"), ChoiceTone::Done);
    assert_eq!(choice_tone("Skip this"), ChoiceTone::Skipped);
    assert_eq!(choice_tone("C"), ChoiceTone::Active);
}

// ── agent status ──

const SEC: u128 = 1_000_000_000;

#[test]
fn test_agent_lifecycle() {
    let mut panel = AgentStatusPanel::new();
    panel.set_hooks_active(true);
    panel.handle_event(&AppEvent::AgentStarted { agent_id: "a1".to_string(), agent_type: "Explore".to_string() }, 0);
    assert_eq!(panel.running_count(), 1);
    assert!(panel.has_running_agents());
    panel.handle_event(&AppEvent::AgentStopped { agent_id: "a1".to_string() }, 0);
    assert_eq!(panel.running_count(), 0);
    assert!(!panel.has_running_agents());
}

#[test]
fn test_agent_timeout() {
    let mut panel = AgentStatusPanel::new();
    panel.set_hooks_active(true);
    panel.handle_event(&AppEvent::AgentStarted { agent_id: "old".to_string(), agent_type: "Plan".to_string() }, 0);
    assert!(!panel.check_timeouts(59 * SEC));
    let changed = panel.check_timeouts(61 * SEC);
    assert!(changed);
    assert_eq!(panel.running_count(), 0);
    assert!(matches!(panel.agents()[0].state, devflow_tui::panel::agent_status::AgentState::Timeout));
}

#[test]
fn test_max_history() {
    let mut panel = AgentStatusPanel::new();
    for i in 0..105 {
        panel.handle_event(&AppEvent::AgentStarted { agent_id: format!("a{i}"), agent_type: "Explore".to_string() }, 0);
        panel.handle_event(&AppEvent::AgentStopped { agent_id: format!("a{i}") }, 0);
    }
    assert_eq!(panel.agents().len(), 100);
    assert!(!panel.has_running_agents());
}

#[test]
fn test_duplicate_agent_id() {
    let mut panel = AgentStatusPanel::new();
    panel.set_hooks_active(true);
    panel.handle_event(&AppEvent::AgentStarted { agent_id: "a1".to_string(), agent_type: "Explore".to_string() }, 0);
    assert_eq!(panel.running_count(), 1);
    panel.handle_event(&AppEvent::AgentStarted { agent_id: "a1".to_string(), agent_type: "Plan".to_string() }, 0);
    assert_eq!(panel.running_count(), 1);
    assert_eq!(panel.agents().len(), 2);
    assert!(matches!(panel.agents()[0].state, devflow_tui::panel::agent_status::AgentState::Done));
    assert!(matches!(panel.agents()[1].state, devflow_tui::panel::agent_status::AgentState::Running { .. }));
}

#[test]
fn test_hooks_inactive_message() {
    let panel = AgentStatusPanel::new();
    assert!(!panel.hooks_active());
}

// ── git status ──

#[test]
fn test_clamp_scroll_empty() {
    let mut panel = GitStatusPanel::new();
    panel.select(Some(5));
    panel.clamp_scroll();
    assert_eq!(panel.selected(), Some(5));
}

#[test]
fn test_set_snapshot_clamps() {
    let mut panel = GitStatusPanel::new();
    panel.select(Some(10));
    let snapshot = GitSnapshot {
        changes: vec![GitChange {
            status: GitChangeStatus::Staged,
            path: "file.rs".to_string(),
            additions: None,
            deletions: None,
        }],
        ..Default::default()
    };
    panel.set_snapshot(snapshot);
    assert_eq!(panel.selected(), Some(0));
}

#[test]
fn buffer_cap_setting_parses_or_defaults() {
    assert_eq!(buffer_cap_setting(Some("500")), 500);
    assert_eq!(buffer_cap_setting(Some("+20")), 20);
    assert_eq!(buffer_cap_setting(Some("lots")), DEFAULT_BUFFER_CAP);
    assert_eq!(buffer_cap_setting(Some("")), DEFAULT_BUFFER_CAP);
    assert_eq!(buffer_cap_setting(None), DEFAULT_BUFFER_CAP);
}

#[test]
fn preview_keeps_only_the_first_lines() {
    let mut panel = ArtifactPreviewPanel::new();
    let lines: Vec<Option<String>> = (0..MAX_PREVIEW_LINES + 5).map(|i| Some(format!("l{i}"))).collect();
    panel.finish_load(Ok(lines));
    let text = panel.preview_content().unwrap();
    assert_eq!(text.lines().count(), MAX_PREVIEW_LINES);
    assert!(text.starts_with("l0\nl1\n"));
    assert!(text.ends_with(&format!("l{}", MAX_PREVIEW_LINES - 1)));
}

#[test]
fn test_format_entry_with_choice() {
    let entry = AuditEntry {
        timestamp: Some("14:20".to_string()),
        stage: Some("requirements".to_string()),
        choice: Some("B (Approve)".to_string()),
        raw_line: String::new(),
    };
    let item = AuditLogPanel::format_entry(&entry);
    let texts: Vec<&str> = item.iter().map(|s| s.text.as_str()).collect();
    assert_eq!(texts, vec!["  14:20 ", "requirements", " → ", "B (Approve)"]);
}

#[test]
fn test_format_entry_raw() {
    let entry = AuditEntry {
        timestamp: None,
        stage: None,
        choice: None,
        raw_line: "some unrecognized line".to_string(),
    };
    let item = AuditLogPanel::format_entry(&entry);
    assert_eq!(item.len(), 1);
    assert_eq!(item[0].text, "  some unrecognized line");
}
