use devflow_tui::parser::models::{
    Complexity, DeferredStage, FlowState, GitSnapshot, GitWorktree, Phase, StageStatus,
    TokenRecord, TokenSnapshot, WorkMarker, WorktreeInfo,
};
use devflow_tui::parser::devflow_state::set_worktree_field;

#[test]
fn test_flow_state_default() {
    let state = FlowState::default();
    assert_eq!(state.phase, Phase::Inception);
    assert!(state.stage.is_empty());
    assert_eq!(state.complexity, Complexity::Standard);
    assert!(state.completed_stages.is_empty());
    assert!(state.extra_fields.is_empty());
}

#[test]
fn test_phase_display() {
    assert_eq!(Phase::Inception.to_string(), "INCEPTION");
    assert_eq!(Phase::Construction.to_string(), "CONSTRUCTION");
    assert_eq!(Phase::Complete.to_string(), "complete");
    assert_eq!(Phase::Finished.to_string(), "finished");
}

#[test]
fn test_phase_from_str() {
    assert_eq!("INCEPTION".parse::<Phase>(), Ok(Phase::Inception));
    assert_eq!("construction".parse::<Phase>(), Ok(Phase::Construction));
    assert_eq!("Complete".parse::<Phase>(), Ok(Phase::Complete));
    assert!("unknown".parse::<Phase>().is_err());
}

#[test]
fn test_complexity_display() {
    assert_eq!(Complexity::Minimal.to_string(), "Minimal");
    assert_eq!(Complexity::Standard.to_string(), "Standard");
    assert_eq!(Complexity::Comprehensive.to_string(), "Comprehensive");
}

#[test]
fn test_complexity_from_str() {
    assert_eq!("minimal".parse::<Complexity>(), Ok(Complexity::Minimal));
    assert_eq!("Standard".parse::<Complexity>(), Ok(Complexity::Standard));
    assert_eq!("COMPREHENSIVE".parse::<Complexity>(), Ok(Complexity::Comprehensive));
    assert!("unknown".parse::<Complexity>().is_err());
}

#[test]
fn test_git_snapshot_default() {
    let snap = GitSnapshot::default();
    assert!(snap.branch.is_empty());
    assert!(snap.changes.is_empty());
    assert_eq!(snap.diff_stat.additions, 0);
}

#[test]
fn test_stage_status_deferred_variant_exists() {
    let status = StageStatus::Deferred;
    assert_eq!(status, StageStatus::Deferred);
    assert_ne!(StageStatus::Deferred, StageStatus::Skipped);
}

#[test]
fn test_deferred_stage_struct() {
    let ds = DeferredStage {
        name: "user-stories".to_string(),
        reason: Some("Deferred to wave 2".to_string()),
    };
    assert_eq!(ds.name, "user-stories");
    assert_eq!(ds.reason.as_deref(), Some("Deferred to wave 2"));
}

#[test]
fn test_flow_state_has_deferred_stages() {
    let state = FlowState::default();
    assert!(state.deferred_stages.is_empty());
}

#[test]
fn test_git_worktree_is_current_field() {
    let wt = GitWorktree {
        path: "/tmp/wt".to_string(),
        branch: Some("main".to_string()),
        is_current: true,
    };
    assert!(wt.is_current);

    let wt_default = GitWorktree {
        path: "/tmp/other".to_string(),
        branch: None,
        is_current: false,
    };
    assert!(!wt_default.is_current);
}

#[test]
fn test_parse_errors_carry_trimmed_text_and_message() {
    let e = Phase::parse_str("  bogus ").unwrap_err();
    assert_eq!(e.0, "bogus");
    assert_eq!(e.message(), "unknown phase: 'bogus'");
    let c = Complexity::parse_str(" huge").unwrap_err();
    assert_eq!(c.message(), "unknown complexity: 'huge'");
    assert_eq!(Phase::parse_str("  finished\t"), Ok(Phase::Finished));
}

#[test]
fn test_work_marker_icons() {
    assert_eq!(WorkMarker::Done.icon(), "✓");
    assert_eq!(WorkMarker::InProgress.icon(), "◐");
    assert_eq!(WorkMarker::Pending.icon(), "○");
}

#[test]
fn test_extra_fields_insert_replaces() {
    let mut state = FlowState::default();
    state.extra_fields.insert("A".to_string(), "1".to_string());
    state.extra_fields.insert("B".to_string(), "2".to_string());
    state.extra_fields.insert("A".to_string(), "3".to_string());
    assert_eq!(state.extra_fields.len(), 2);
    assert_eq!(state.extra_fields.get("A").map(|s| s.as_str()), Some("3"));
    assert_eq!(state.extra_fields.get("B").map(|s| s.as_str()), Some("2"));
    assert!(state.extra_fields.get("C").is_none());
}

#[test]
fn test_token_totals_saturate() {
    let r = TokenRecord {
        input_tokens: u64::MAX,
        output_tokens: 5,
        cache_creation_input_tokens: 1,
        cache_read_input_tokens: 7,
    };
    assert_eq!(r.total(), u64::MAX);
    let snap = TokenSnapshot { cumulative: r, ..Default::default() };
    assert_eq!(snap.total_billable(), u64::MAX);
    assert_eq!(snap.total_input_display(), u64::MAX);
}

fn chars(s: &str) -> Vec<char> {
    s.chars().collect()
}

#[test]
fn phase_and_complexity_from_cased_names() {
    assert_eq!(Phase::from_upper(&chars("CONSTRUCTION")), Some(Phase::Construction));
    assert_eq!(Phase::from_upper(&chars("construction")), None);
    assert_eq!(Complexity::from_lower(&chars("standard")), Some(Complexity::Standard));
    assert_eq!(Complexity::from_lower(&chars("Standard")), None);
}

#[test]
fn worktree_field_by_lowercased_key() {
    let mut w = WorktreeInfo::default();
    set_worktree_field(&mut w, &chars("branch"), &chars("feature/x"));
    set_worktree_field(&mut w, &chars("path"), &chars("/tmp/wt"));
    set_worktree_field(&mut w, &chars("other"), &chars("ignored"));
    assert_eq!(w.branch.as_deref(), Some("feature/x"));
    assert_eq!(w.path.as_deref(), Some("/tmp/wt"));
}
