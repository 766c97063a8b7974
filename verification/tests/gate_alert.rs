use devflow_tui::event::AppEvent;
use devflow_tui::input::{KeyCode, KeyEvent};
use devflow_tui::panel::gate_alert::{
    detect_gate, extract_choices_from_line, find_next_choice_start, validate_sequential,
    GateAlertPanel,
};
use devflow_tui::parser::models::{FlowState, SessionSummary};

fn chars(s: &str) -> Vec<char> {
    s.chars().collect()
}

#[test]
fn test_detect_gate_ab_pattern() {
    let msg = "Choose one:\nA) First option\nB) Second option";
    let result = detect_gate(msg);
    assert!(result.is_some());
    let (_, choices) = result.unwrap();
    assert_eq!(choices.len(), 2);
    assert!(choices[0].starts_with("A)"));
    assert!(choices[1].starts_with("B)"));
}

#[test]
fn test_detect_gate_abc_pattern() {
    let msg = "A) Option A\nB) Option B\nC) Option C";
    let result = detect_gate(msg);
    assert!(result.is_some());
    let (_, choices) = result.unwrap();
    assert_eq!(choices.len(), 3);
}

#[test]
fn test_detect_gate_no_pattern() {
    let msg = "This is a normal message without any gate choices.";
    assert!(detect_gate(msg).is_none());
}

#[test]
fn test_detect_gate_single_choice_not_gate() {
    let msg = "A) Only one choice is not a gate";
    assert!(detect_gate(msg).is_none());
}

#[test]
fn test_detect_gate_bold_markdown() {
    let msg = "**A)** Bold option\n**B)** Another";
    let result = detect_gate(msg);
    assert!(result.is_some());
    let (_, choices) = result.unwrap();
    assert_eq!(choices.len(), 2);
}

#[test]
fn test_turn_completed_activates_gate() {
    let mut panel = GateAlertPanel::new();
    panel.set_hooks_active(true);
    panel.handle_event(&AppEvent::TurnCompleted {
        last_message: "Choose:\nA) Yes\nB) No".to_string(),
    });
    assert!(panel.is_active());
    assert_eq!(panel.choices().len(), 2);
}

#[test]
fn test_turn_completed_non_gate_clears() {
    let mut panel = GateAlertPanel::new();
    panel.set_hooks_active(true);
    panel.handle_event(&AppEvent::TurnCompleted {
        last_message: "A) Yes\nB) No".to_string(),
    });
    assert!(panel.is_active());
    panel.handle_event(&AppEvent::TurnCompleted {
        last_message: "Done, no choices here.".to_string(),
    });
    assert!(!panel.is_active());
}

#[test]
fn test_stage_change_clears_gate() {
    let mut panel = GateAlertPanel::new();
    panel.activate_gate("test".to_string(), vec!["A) x".to_string()]);
    panel.handle_event(&AppEvent::FlowStateChanged(FlowState::default()));
    assert!(!panel.is_active());
}

#[test]
fn test_esc_clears_gate() {
    let mut panel = GateAlertPanel::new();
    panel.activate_gate("test".to_string(), vec!["A) x".to_string(), "B) y".to_string()]);
    panel.handle_key(KeyEvent::plain(KeyCode::Esc));
    assert!(!panel.is_active());
}

#[test]
fn test_ask_user_question_activates() {
    let mut panel = GateAlertPanel::new();
    panel.handle_event(&AppEvent::ToolUseCompleted {
        tool_name: "AskUserQuestion".to_string(),
    });
    assert!(panel.is_active());
}

#[test]
fn test_session_summary_updates_next_steps() {
    let mut panel = GateAlertPanel::new();
    let summary = SessionSummary {
        next_steps: vec!["Do something".to_string()],
        ..Default::default()
    };
    panel.handle_event(&AppEvent::SessionSummaryChanged(summary));
    assert_eq!(panel.next_steps().len(), 1);
}

#[test]
fn test_detect_gate_inline() {
    let msg = "A) Yes B) No";
    let result = detect_gate(msg);
    assert!(result.is_some());
    let (_, choices) = result.unwrap();
    assert_eq!(choices.len(), 2);
    assert!(choices[0].starts_with("A)"));
    assert!(choices[1].starts_with("B)"));
}

#[test]
fn test_detect_gate_inline_three() {
    let msg = "A) Option one B) Option two C) Option three";
    let result = detect_gate(msg);
    assert!(result.is_some());
    let (_, choices) = result.unwrap();
    assert_eq!(choices.len(), 3);
}

#[test]
fn test_detect_gate_non_sequential_rejected() {
    let msg = "I) went to the store\nZ) something else";
    assert!(detect_gate(msg).is_none());
}

#[test]
fn test_detect_gate_must_start_with_a() {
    let msg = "B) Second\nC) Third";
    assert!(detect_gate(msg).is_none());
}

#[test]
fn test_detect_gate_sequential_abc() {
    let msg = "A) First\nB) Second\nC) Third";
    let result = detect_gate(msg);
    assert!(result.is_some());
    let (_, choices) = result.unwrap();
    assert_eq!(choices.len(), 3);
}

#[test]
fn test_gate_text_is_last_plain_line_and_choice_text_trimmed() {
    let (text, choices) = detect_gate("Intro\n  Pick one:  \n**A)**   Yes please   B) No").unwrap();
    assert_eq!(text, "Pick one:");
    assert_eq!(choices, vec!["A) Yes please".to_string(), "B) No".to_string()]);
}

#[test]
fn test_choice_helpers() {
    assert_eq!(find_next_choice_start(&chars("x B) y")), 2);
    assert_eq!(find_next_choice_start(&chars("B) y")), 4);
    assert_eq!(extract_choices_from_line(&chars("xA) no")).len(), 0);
    assert_eq!(extract_choices_from_line(&chars("\tA) a *B) b")).len(), 2);
    assert!(validate_sequential(&vec!["A) a".to_string(), "B) b".to_string()]));
    assert!(!validate_sequential(&vec!["A) a".to_string(), "C) c".to_string()]));
}

#[test]
fn test_ask_user_question_keeps_active_gate() {
    let mut panel = GateAlertPanel::new();
    panel.activate_gate("Pick".to_string(), vec!["A) a".to_string(), "B) b".to_string()]);
    panel.handle_event(&AppEvent::ToolUseCompleted { tool_name: "AskUserQuestion".to_string() });
    assert_eq!(panel.gate_text(), "Pick");
    assert_eq!(panel.choices().len(), 2);
}
