use devflow_tui::action::Action;
use devflow_tui::app::{App, FocusPane, HookSetupState, InputMode};
use devflow_tui::demo::populate_demo_data;
use devflow_tui::event::AppEvent;
use devflow_tui::input::{KeyCode, KeyEvent};
use devflow_tui::panel::audit_log::DEFAULT_BUFFER_CAP;
use devflow_tui::parser::models::FlowState;
use devflow_tui::service::hook_config::{check_hooks_contents, HookConfigStatus};

fn make_app(width: u16, height: u16) -> App {
    App::new(width, height, "test-token".to_string(), "/tmp/test".to_string(), DEFAULT_BUFFER_CAP)
}

fn key(c: KeyCode) -> KeyEvent {
    KeyEvent::plain(c)
}

#[test]
fn test_available_panels_compact() {
    let app = make_app(80, 24);
    let panels = app.available_panels();
    assert_eq!(panels.len(), 4);
    assert_eq!(panels[0], FocusPane::WorkflowMap);
}

#[test]
fn test_available_panels_standard() {
    let app = make_app(120, 30);
    let panels = app.available_panels();
    assert_eq!(panels.len(), 4);
}

#[test]
fn test_available_panels_wide_includes_gate() {
    let app = make_app(200, 50);
    let panels = app.available_panels();
    assert_eq!(panels.len(), 5);
    assert!(panels.contains(&FocusPane::GateAlert));
}

#[test]
fn test_available_panels_standard_excludes_gate() {
    let app = make_app(120, 30);
    let panels = app.available_panels();
    assert_eq!(panels.len(), 4);
    assert!(!panels.contains(&FocusPane::GateAlert));
}

#[test]
fn test_ensure_valid_focus() {
    let mut app = make_app(80, 24);
    app.focus = FocusPane::AuditLog;
    app.ensure_valid_focus();
    assert_eq!(app.focus, FocusPane::AuditLog);
}

#[test]
fn test_focus_name() {
    let app = make_app(80, 24);
    assert_eq!(app.focus_name(), "Workflow Map");
}

#[test]
fn test_handle_key_quit() {
    let mut app = make_app(80, 24);
    app.handle_key(key(KeyCode::Char('q')));
    assert!(app.should_quit);
}

#[test]
fn test_handle_key_tab_focus() {
    let mut app = make_app(80, 24);
    assert_eq!(app.focus, FocusPane::WorkflowMap);
    app.handle_key(key(KeyCode::Tab));
    assert_eq!(app.focus, FocusPane::GitStatus);
    app.handle_key(key(KeyCode::Tab));
    assert_eq!(app.focus, FocusPane::AgentStatus);
    app.handle_key(key(KeyCode::Tab));
    assert_eq!(app.focus, FocusPane::AuditLog);
    app.handle_key(key(KeyCode::Tab));
    assert_eq!(app.focus, FocusPane::WorkflowMap);
}

#[test]
fn test_handle_key_backtab_focus() {
    let mut app = make_app(80, 24);
    app.handle_key(key(KeyCode::BackTab));
    assert_eq!(app.focus, FocusPane::AuditLog);
}

#[test]
fn test_wide_tab_cycle_visits_gate() {
    let mut app = make_app(200, 50);
    for _ in 0..4 {
        app.handle_key(key(KeyCode::Tab));
    }
    assert_eq!(app.focus, FocusPane::GateAlert);
    app.handle_key(key(KeyCode::Tab));
    assert_eq!(app.focus, FocusPane::WorkflowMap);
}

#[test]
fn test_handle_key_help_overlay() {
    let mut app = make_app(80, 24);
    app.handle_key(key(KeyCode::Char('?')));
    assert_eq!(app.input_mode, InputMode::HelpOverlay);
}

#[test]
fn test_help_overlay_esc_returns_normal() {
    let mut app = make_app(80, 24);
    app.input_mode = InputMode::HelpOverlay;
    app.handle_key(key(KeyCode::Esc));
    assert_eq!(app.input_mode, InputMode::Normal);
}

#[test]
fn test_help_overlay_question_returns_normal() {
    let mut app = make_app(80, 24);
    app.input_mode = InputMode::HelpOverlay;
    app.handle_key(key(KeyCode::Char('?')));
    assert_eq!(app.input_mode, InputMode::Normal);
}

#[test]
fn test_handle_key_expand() {
    let mut app = make_app(80, 24);
    app.handle_key(key(KeyCode::Char('f')));
    assert_eq!(app.input_mode, InputMode::Expanded);
}

#[test]
fn test_expanded_esc_returns_normal() {
    let mut app = make_app(80, 24);
    app.input_mode = InputMode::Expanded;
    app.handle_key(key(KeyCode::Esc));
    assert_eq!(app.input_mode, InputMode::Normal);
}

#[test]
fn test_expanded_f_returns_normal() {
    let mut app = make_app(80, 24);
    app.input_mode = InputMode::Expanded;
    app.handle_key(key(KeyCode::Char('f')));
    assert_eq!(app.input_mode, InputMode::Normal);
}

#[test]
fn test_focus_direction_standard() {
    let mut app = make_app(120, 30);
    assert_eq!(app.focus, FocusPane::WorkflowMap);
    app.handle_key(KeyEvent { code: KeyCode::Char('l'), ctrl: true });
    assert_eq!(app.focus, FocusPane::GitStatus);
}

#[test]
fn test_handle_key_c_noop_when_configured() {
    let mut app = make_app(80, 24);
    app.hook_setup = HookSetupState::Configured;
    let (result, command) = app.handle_key(key(KeyCode::Char('c')));
    assert!(result);
    assert!(command.is_none());
}

#[test]
fn test_handle_key_c_copies_snippet() {
    let mut app = make_app(80, 24);
    app.hooks_port = Some(9100);
    app.hook_setup = HookSetupState::NotConfigured { snippet: r#"{"hooks": {}}"#.to_string() };
    let (result, command) = app.handle_key(key(KeyCode::Char('c')));
    assert!(result);
    match command {
        Some(Action::CopyToClipboard(t)) => assert_eq!(t, r#"{"hooks": {}}"#),
        other => panic!("unexpected command: {other:?}"),
    }
}

#[test]
fn test_refresh_key_asks_for_refresh() {
    let mut app = make_app(80, 24);
    let (handled, command) = app.handle_key(key(KeyCode::Char('r')));
    assert!(handled);
    assert!(matches!(command, Some(Action::Refresh)));
}

#[test]
fn test_unbound_key_not_handled() {
    let mut app = make_app(80, 24);
    let (handled, command) = app.handle_key(key(KeyCode::Char('z')));
    assert!(!handled);
    assert!(command.is_none());
    let (handled, _) = app.handle_key(key(KeyCode::Enter));
    assert!(handled);
}

#[test]
fn test_handle_event_hooks_started() {
    let mut app = make_app(80, 24);
    let needs_check = app.handle_event(AppEvent::HooksServerStarted { port: 9100 }, 0);
    assert!(needs_check);
    assert!(app.hooks_active);
    assert_eq!(app.hooks_port, Some(9100));
}

#[test]
fn test_handle_event_hooks_failed() {
    let mut app = make_app(80, 24);
    app.hooks_active = true;
    app.handle_event(AppEvent::HooksServerFailed { reason: "bind error".to_string() }, 0);
    assert!(!app.hooks_active);
}

#[test]
fn test_handle_flow_state() {
    let mut app = make_app(80, 24);
    let state = FlowState { stage: "requirements-analysis".to_string(), ..Default::default() };
    app.handle_flow_state(state);
    assert_eq!(app.phase, "INCEPTION");
    assert_eq!(app.stage, "requirements-analysis");
}

#[test]
fn test_on_tick_returns_false_when_no_change() {
    let mut app = make_app(80, 24);
    assert!(!app.on_tick(0));
}

#[test]
fn test_on_resize_revalidates_focus() {
    let mut app = make_app(200, 50);
    app.focus = FocusPane::WorkflowMap;
    app.on_resize(80, 24);
    assert!(app.available_panels().contains(&app.focus));
}

#[test]
fn test_resize_moves_focus_off_gate() {
    let mut app = make_app(200, 50);
    app.focus = FocusPane::GateAlert;
    app.on_resize(120, 30);
    assert_eq!(app.focus, FocusPane::WorkflowMap);
}

#[test]
fn test_handle_event_broadcast() {
    let mut app = make_app(80, 24);
    app.agent_status.set_hooks_active(true);
    app.handle_event(AppEvent::AgentStarted { agent_id: "a1".to_string(), agent_type: "Explore".to_string() }, 0);
    assert!(app.agent_status.has_running_agents());
}

#[test]
fn app_test_check_hooks_not_configured() {
    let mut app = make_app(80, 24);
    app.hooks_port = Some(9100);
    let status = check_hooks_contents(&vec![None, None], 9100, &app.token);
    app.apply_hooks_check(status);
    assert!(matches!(app.hook_setup, HookSetupState::NotConfigured { .. }));
}

#[test]
fn app_test_check_hooks_configured() {
    let mut app = make_app(80, 24);
    app.apply_hooks_check(HookConfigStatus::Configured);
    assert!(matches!(app.hook_setup, HookSetupState::Unknown));
}

#[test]
fn test_gate_alert_event_broadcast() {
    let mut app = make_app(200, 50);
    app.handle_event(AppEvent::TurnCompleted { last_message: "A) Yes\nB) No".to_string() }, 0);
    assert!(app.gate_alert.is_active());
}

#[test]
fn test_populate_demo_no_panic() {
    let mut app = make_app(120, 30);
    populate_demo_data(&mut app, 0);
    assert_eq!(app.phase, "CONSTRUCTION");
    assert!(app.hooks_active);
    assert!(app.agent_status.has_running_agents());
}

#[test]
fn phase_stage_joins_phase_and_stage() {
    let mut app = make_app(120, 30);
    app.phase = "INCEPTION".to_string();
    app.stage = String::new();
    assert_eq!(app.phase_stage(), "INCEPTION");
    app.stage = "workspace-detection".to_string();
    assert_eq!(app.phase_stage(), "INCEPTION > workspace-detection");
}

#[test]
fn setup_banner_only_when_hooks_need_attention() {
    let mut app = make_app(120, 30);
    app.hook_setup = HookSetupState::Unknown;
    assert_eq!(app.setup_banner(), None);
    app.hook_setup = HookSetupState::Configured;
    assert_eq!(app.setup_banner(), None);
    app.hook_setup = HookSetupState::NotConfigured { snippet: "{}".to_string() };
    assert_eq!(app.setup_banner(), Some(" ⚠ Hooks 미설정 — c 키로 설정 JSON 복사"));
    app.hook_setup = HookSetupState::Mismatch { detail: "port".to_string() };
    assert_eq!(app.setup_banner(), Some(" ⚠ Hooks 설정 불일치 — c 키로 새 설정 복사"));
}
