use devflow_tui::adapter::hooks_server::{handle_hook, ports_to_try, HookPayload, HookStatus};
use devflow_tui::event::AppEvent;

fn payload(name: &str) -> HookPayload {
    HookPayload {
        hook_event_name: Some(name.to_string()),
        agent_id: None,
        agent_type: None,
        tool_name: None,
        last_assistant_message: None,
    }
}

#[test]
fn test_hook_valid_token_agent_started() {
    let mut p = payload("SubagentStart");
    p.agent_id = Some("agent-abc".to_string());
    p.agent_type = Some("Explore".to_string());
    let (status, event) = handle_hook("secret123", Some("secret123"), Some(p));
    assert_eq!(status, HookStatus::Accepted);
    match event {
        Some(AppEvent::AgentStarted { agent_id, agent_type }) => {
            assert_eq!(agent_id, "agent-abc");
            assert_eq!(agent_type, "Explore");
        }
        other => panic!("unexpected event: {other:?}"),
    }
}

#[test]
fn test_hook_invalid_token_403() {
    let (status, event) = handle_hook("secret123", Some("wrongtoken"), Some(payload("Stop")));
    assert_eq!(status, HookStatus::Forbidden);
    assert!(event.is_none());
}

#[test]
fn test_hook_missing_token_403() {
    let (status, _) = handle_hook("secret123", None, Some(payload("Stop")));
    assert_eq!(status, HookStatus::Forbidden);
}

#[test]
fn test_hook_stop_event() {
    let mut p = payload("Stop");
    p.last_assistant_message = Some("A) option\nB) option".to_string());
    let (status, event) = handle_hook("tok", Some("tok"), Some(p));
    assert_eq!(status, HookStatus::Accepted);
    match event {
        Some(AppEvent::TurnCompleted { last_message }) => assert!(last_message.contains("A) option")),
        other => panic!("unexpected event: {other:?}"),
    }
}

#[test]
fn test_hook_ansi_sanitized() {
    let mut p = payload("SubagentStart");
    p.agent_id = Some("\x1b[31magent-x\x1b[0m".to_string());
    p.agent_type = Some("Plan".to_string());
    let (_, event) = handle_hook("tok", Some("tok"), Some(p));
    match event {
        Some(AppEvent::AgentStarted { agent_id, .. }) => assert_eq!(agent_id, "agent-x"),
        other => panic!("unexpected event: {other:?}"),
    }
}

#[test]
fn test_hook_bad_payload_and_unknown_event() {
    let (status, _) = handle_hook("tok", Some("tok"), None);
    assert_eq!(status, HookStatus::BadRequest);
    let (status, event) = handle_hook("tok", Some("tok"), Some(payload("Notification")));
    assert_eq!(status, HookStatus::Accepted);
    assert!(event.is_none());
    let (_, event) = handle_hook("tok", Some("tok"), Some(payload("SubagentStop")));
    assert!(event.is_none());
}

#[test]
fn test_ports_to_try() {
    let p = ports_to_try(9105);
    assert_eq!(p.len(), 11);
    assert_eq!(p[0], 9105);
    assert_eq!(p[1], 9100);
    let q = ports_to_try(8000);
    assert_eq!(q.len(), 12);
    assert_eq!(q[11], 9110);
}
