use devflow_tui::parser::audit_log;
use devflow_tui::parser::devflow_state;
use devflow_tui::parser::models::{Complexity, Phase, WorkMarker};
use devflow_tui::parser::session_summary;
use devflow_tui::service::sanitizer::strip_ansi;

#[test]
fn test_golden_minimal() {
    let content = r#"# DevFlow State

## Current Phase
INCEPTION

## Current Stage
(pending)

## Complexity
(pending)

## Selected Approach
(pending)
"#;
    let state = devflow_state::parse(content);
    assert_eq!(state.phase, Phase::Inception);
    assert_eq!(state.stage, "(pending)");
    assert_eq!(state.complexity, Complexity::Standard);
    assert!(state.selected_approach.is_none());
}

#[test]
fn test_golden_standard() {
    let content = r#"# DevFlow State

## Current Phase
INCEPTION

## Current Stage
requirements-analysis

## Complexity
Standard

## Selected Approach
B (계층별 유닛 분해)

## Completed Stages
- workspace-detection (2026-03-30T14:18)
- complexity-declaration (2026-03-30T14:19)

## Approved Stages
- code-generation — depth: Standard
- build-and-test — depth: Standard

## Skipped Stages
- user-stories — reason: Minimal complexity
"#;
    let state = devflow_state::parse(content);
    assert_eq!(state.phase, Phase::Inception);
    assert_eq!(state.stage, "requirements-analysis");
    assert_eq!(state.complexity, Complexity::Standard);
    assert_eq!(state.selected_approach.as_deref(), Some("B (계층별 유닛 분해)"));
    assert_eq!(state.completed_stages.len(), 2);
    assert_eq!(state.completed_stages[0].name, "workspace-detection");
    assert_eq!(state.completed_stages[0].timestamp.as_deref(), Some("2026-03-30T14:18"));
    assert_eq!(state.approved_stages.len(), 2);
    assert_eq!(state.approved_stages[0].depth.as_deref(), Some("Standard"));
    assert_eq!(state.skipped_stages.len(), 1);
    assert_eq!(state.skipped_stages[0].reason.as_deref(), Some("Minimal complexity"));
}

#[test]
fn test_golden_construction() {
    let content = r#"# DevFlow State

## Current Phase
CONSTRUCTION

## Current Stage
code-generation

## Complexity
Standard

## Active Unit
unit-03-file-watcher

## Completed Units
- unit-01-foundation
- unit-02-parser

## Worktree
branch: feature/devflow-tui
path: /Users/jay/projects/backend/devflow-tui
"#;
    let state = devflow_state::parse(content);
    assert_eq!(state.phase, Phase::Construction);
    assert_eq!(state.stage, "code-generation");
    assert_eq!(state.active_unit.as_deref(), Some("unit-03-file-watcher"));
    assert_eq!(state.completed_units.len(), 2);
    assert_eq!(state.completed_units[0], "unit-01-foundation");
    assert_eq!(state.worktree.branch.as_deref(), Some("feature/devflow-tui"));
}

#[test]
fn test_golden_nonstandard() {
    let content = r#"# DevFlow State

## Current Phase
INCEPTION

## Current Stage
workflow-planning

## Complexity
Standard

## Project Root
/Users/jay/projects/backend

## Finishing Choice
B (PR pending)

## PR URL
https://github.com/user/repo/pull/42
"#;
    let state = devflow_state::parse(content);
    assert_eq!(state.phase, Phase::Inception);
    assert_eq!(
        state.extra_fields.get("Project Root").map(|s| s.as_str()),
        Some("/Users/jay/projects/backend")
    );
    assert_eq!(
        state.extra_fields.get("Finishing Choice").map(|s| s.as_str()),
        Some("B (PR pending)")
    );
    assert_eq!(
        state.extra_fields.get("PR URL").map(|s| s.as_str()),
        Some("https://github.com/user/repo/pull/42")
    );
}

#[test]
fn test_golden_empty() {
    let state = devflow_state::parse("");
    assert_eq!(state.phase, Phase::Inception);
    assert!(state.stage.is_empty());
    assert_eq!(state.complexity, Complexity::Standard);
}

#[test]
fn test_ansi_stripped() {
    let content = "# DevFlow State\n\n## Current Phase\n\x1b[32mCONSTRUCTION\x1b[0m\n";
    let state = devflow_state::parse(content);
    assert_eq!(state.phase, Phase::Construction);
}

#[test]
fn test_state_section_value_joins_lines_and_worktree_keys_ignore_case() {
    let content = "## Notes\n  first  \n\n second\n## Worktree\nPATH: /x\nBranch : b\n";
    let state = devflow_state::parse(content);
    assert_eq!(state.extra_fields.get("Notes").map(|s| s.as_str()), Some("first\nsecond"));
    assert_eq!(state.worktree.path.as_deref(), Some("/x"));
    assert_eq!(state.worktree.branch.as_deref(), Some("b"));
}

#[test]
fn test_state_unknown_phase_falls_back_and_nested_parens() {
    let content = "## Current Phase\nsomething\n## Complexity\nMINIMAL\n## Completed Stages\n- a (x) (2026-01-01))\n- plain\nnot a bullet\n";
    let state = devflow_state::parse(content);
    assert_eq!(state.phase, Phase::Inception);
    assert_eq!(state.complexity, Complexity::Minimal);
    assert_eq!(state.completed_stages.len(), 2);
    assert_eq!(state.completed_stages[0].name, "a (x)");
    assert_eq!(state.completed_stages[0].timestamp.as_deref(), Some("2026-01-01"));
    assert_eq!(state.completed_stages[1].name, "plain");
    assert!(state.completed_stages[1].timestamp.is_none());
}

#[test]
fn test_golden_inception_session() {
    let content = r#"# Session Summary

**Last Updated**: 2026-03-30T14:40:00+09:00
**Commit**: 2a3cbee

## Current State
- Phase: INCEPTION
- Stage: requirements-analysis
- Complexity: Standard

## Key Decisions
- 2026-03-30T14:18 workspace-detection B — Greenfield
- 2026-03-30T14:19 complexity A→Standard

## Completed Work
### INCEPTION
- [x] workspace-detection — Greenfield detected
- [~] requirements-analysis — in progress
- [ ] workflow-planning — pending

## Next Steps
- Complete requirements-analysis

## For Next Session
- Review open questions in requirements
"#;
    let summary = session_summary::parse(content);
    assert_eq!(summary.last_updated.as_deref(), Some("2026-03-30T14:40:00+09:00"));
    assert_eq!(summary.commit.as_deref(), Some("2a3cbee"));
    assert_eq!(summary.phase, Some(Phase::Inception));
    assert_eq!(summary.stage.as_deref(), Some("requirements-analysis"));
    assert_eq!(summary.complexity, Some(Complexity::Standard));
    assert_eq!(summary.key_decisions.len(), 2);
    assert_eq!(summary.completed_work.len(), 3);
    assert_eq!(summary.completed_work[0].marker, WorkMarker::Done);
    assert_eq!(summary.completed_work[1].marker, WorkMarker::InProgress);
    assert_eq!(summary.completed_work[2].marker, WorkMarker::Pending);
    assert_eq!(summary.next_steps.len(), 1);
    assert_eq!(summary.for_next_session.len(), 1);
}

#[test]
fn test_golden_construction_session() {
    let content = r#"# Session Summary

**Last Updated**: 2026-03-30

## Current State
- Phase: CONSTRUCTION
- Stage: code-generation

## Key Decisions
- Approach B selected

## Completed Work
### INCEPTION
- [x] workspace-detection — done
- [x] requirements-analysis — done
### CONSTRUCTION
- [x] code-generation unit-01 — done
- [~] code-generation unit-02 — in progress

## Next Steps
- Complete unit-02 parser
"#;
    let summary = session_summary::parse(content);
    assert_eq!(summary.phase, Some(Phase::Construction));
    assert_eq!(summary.completed_work.len(), 4);
    assert_eq!(summary.completed_work[3].marker, WorkMarker::InProgress);
    assert!(summary.completed_work[3].text.contains("unit-02"));
}

#[test]
fn test_golden_empty_session() {
    let summary = session_summary::parse("");
    assert!(summary.phase.is_none());
    assert!(summary.key_decisions.is_empty());
    assert!(summary.completed_work.is_empty());
}

#[test]
fn test_session_bullets_stripped_and_work_sections_accumulate() {
    let content = "## Key Decisions\n- one\ntwo\n\n## INCEPTION\n- [x] a\n## CONSTRUCTION\n[ ] b\n- plain\n## Current State\nCommit: abc\n";
    let summary = session_summary::parse(content);
    assert_eq!(summary.key_decisions, vec!["one".to_string(), "two".to_string()]);
    assert_eq!(summary.completed_work.len(), 2);
    assert_eq!(summary.completed_work[0].text, "a");
    assert_eq!(summary.completed_work[1].marker, WorkMarker::Pending);
    assert_eq!(summary.commit.as_deref(), Some("abc"));
}

#[test]
fn test_golden_brief_audit() {
    let content = r#"[2026-03-30T14:18] workspace-detection → B (Approve)
[2026-03-30T14:19] complexity-declaration → Standard
[2026-03-30T14:25] requirements-analysis — B (Approve, assumptions noted)
"#;
    let entries = audit_log::parse(content);
    assert_eq!(entries.len(), 3);
    assert_eq!(entries[0].timestamp.as_deref(), Some("2026-03-30T14:18"));
    assert_eq!(entries[0].stage.as_deref(), Some("workspace-detection"));
    assert_eq!(entries[0].choice.as_deref(), Some("B (Approve)"));
    assert_eq!(entries[2].choice.as_deref(), Some("B (Approve, assumptions noted)"));
}

#[test]
fn test_golden_detailed_audit() {
    let content = r#"## workspace-detection
**Timestamp**: 2026-03-30T14:18:00+09:00
**User Input**: B (Approve)
**AI Response**: Greenfield detected
**Context**: Initial workspace analysis

## complexity-declaration
**Timestamp**: 2026-03-30T14:19:00+09:00
**User Input**: Standard
"#;
    let entries = audit_log::parse(content);
    assert_eq!(entries.len(), 2);
    assert_eq!(entries[0].stage.as_deref(), Some("workspace-detection"));
    assert_eq!(entries[0].timestamp.as_deref(), Some("2026-03-30T14:18:00+09:00"));
    assert_eq!(entries[0].choice.as_deref(), Some("B (Approve)"));
    assert_eq!(entries[1].stage.as_deref(), Some("complexity-declaration"));
}

#[test]
fn test_golden_mixed_audit() {
    let content = r#"[2026-03-30T14:18] workspace-detection → B (Approve)

## requirements-analysis
**Timestamp**: 2026-03-30T14:25
**User Input**: B (Approve)

[2026-03-30T14:30] workflow-planning — B (Approve)
Some unrecognized line outside blocks
"#;
    let entries = audit_log::parse(content);
    assert_eq!(entries.len(), 4);
    assert_eq!(entries[0].stage.as_deref(), Some("workspace-detection"));
    assert_eq!(entries[1].stage.as_deref(), Some("requirements-analysis"));
    assert_eq!(entries[1].timestamp.as_deref(), Some("2026-03-30T14:25"));
    assert_eq!(entries[2].stage.as_deref(), Some("workflow-planning"));
    assert!(entries[3].stage.is_none());
    assert_eq!(entries[3].raw_line, "Some unrecognized line outside blocks");
}

#[test]
fn test_empty_audit() {
    let entries = audit_log::parse("");
    assert!(entries.is_empty());
}

#[test]
fn test_ansi_stripped_in_audit() {
    let content = "[\x1b[36m2026-03-30\x1b[0m] \x1b[32mworkspace\x1b[0m → B";
    let entries = audit_log::parse(content);
    assert_eq!(entries.len(), 1);
    assert_eq!(entries[0].timestamp.as_deref(), Some("2026-03-30"));
    assert_eq!(entries[0].stage.as_deref(), Some("workspace"));
}

#[test]
fn test_audit_brief_without_choice_and_detailed_entry_has_empty_raw_line() {
    let entries = audit_log::parse("[t] stage only\n## s\n**Timestamp**: x\n");
    assert_eq!(entries.len(), 2);
    assert_eq!(entries[0].stage.as_deref(), Some("stage only"));
    assert!(entries[0].choice.is_none());
    assert_eq!(entries[0].raw_line, "[t] stage only");
    assert_eq!(entries[1].stage.as_deref(), Some("s"));
    assert_eq!(entries[1].timestamp.as_deref(), Some("x"));
    assert!(entries[1].choice.is_none());
    assert_eq!(entries[1].raw_line, "");
}

#[test]
fn audit_entries_hold_no_escape() {
    let content = "\x1b[31m[2026-01-01T00:00:00Z] design — approve\x1b[0m\n\x1b[1mjust text\x1b[0m\n## plan\n**Timestamp**: t";
    let entries = audit_log::parse(content);
    assert_eq!(entries.len(), 3);
    for e in &entries {
        assert!(!e.raw_line.contains('\x1b'));
        for f in [&e.timestamp, &e.stage, &e.choice].into_iter().flatten() {
            assert!(!f.contains('\x1b'));
        }
        if e.stage.is_none() {
            assert!(e.timestamp.is_none() && e.choice.is_none());
        }
    }
    assert_eq!(entries[1].raw_line, "just text");
    assert_eq!(entries[2].raw_line, "");
    assert_eq!(audit_log::parse(&strip_ansi(content)).len(), 3);
}
