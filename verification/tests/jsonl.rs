use devflow_tui::parser::jsonl_token::{accumulate, jsonl_payload, parse_entry, project_key, token_entry, JsonlEntry};
use devflow_tui::parser::models::{TokenRecord, TokenSnapshot};

const BASE: i64 = 1_774_958_400;

fn rec(input: u64, output: u64, create: u64, read: u64) -> TokenRecord {
    TokenRecord {
        input_tokens: input,
        output_tokens: output,
        cache_creation_input_tokens: create,
        cache_read_input_tokens: read,
    }
}

#[test]
fn test_total_billable() {
    let snap = TokenSnapshot { cumulative: rec(100, 50, 200, 300), ..Default::default() };
    assert_eq!(snap.total_billable(), 350);
}

#[test]
fn test_total_input_display() {
    let snap = TokenSnapshot { cumulative: rec(100, 50, 200, 300), ..Default::default() };
    assert_eq!(snap.total_input_display(), 600);
}

#[test]
fn test_token_record_total() {
    let r = rec(100, 50, 200, 300);
    assert_eq!(r.total(), 350);
}

#[test]
fn test_accumulate_adds_to_cumulative() {
    let mut snap = TokenSnapshot::default();
    accumulate(&mut snap, rec(100, 50, 200, 300), None);
    assert_eq!(snap.cumulative.input_tokens, 100);
    assert_eq!(snap.cumulative.output_tokens, 50);
    assert_eq!(snap.cumulative.cache_creation_input_tokens, 200);
    assert_eq!(snap.cumulative.cache_read_input_tokens, 300);
    assert_eq!(snap.turn_count, 1);
}

#[test]
fn test_accumulate_multiple_records() {
    let mut snap = TokenSnapshot::default();
    for _ in 0..3 {
        accumulate(&mut snap, rec(100, 50, 0, 0), None);
    }
    assert_eq!(snap.cumulative.input_tokens, 300);
    assert_eq!(snap.cumulative.output_tokens, 150);
    assert_eq!(snap.turn_count, 3);
}

#[test]
fn test_accumulate_saturating_no_overflow() {
    let mut snap = TokenSnapshot::default();
    accumulate(&mut snap, rec(u64::MAX, 1, 0, 0), None);
    accumulate(&mut snap, rec(100, 0, 0, 0), None);
    assert_eq!(snap.cumulative.input_tokens, u64::MAX);
}

#[test]
fn test_burn_rate_empty_returns_zero() {
    let snap = TokenSnapshot::default();
    assert!(snap.burn_window().is_none());
}

#[test]
fn test_burn_rate_single_entry_returns_zero() {
    let mut snap = TokenSnapshot::default();
    accumulate(&mut snap, rec(100, 0, 0, 0), Some((BASE, 0)));
    assert!(snap.burn_window().is_none());
}

#[test]
fn test_burn_rate_within_window() {
    let mut snap = TokenSnapshot::default();
    for i in 0..3 {
        accumulate(&mut snap, rec(50, 50, 0, 0), Some((BASE + i * 15, 0)));
    }
    let (tokens, secs) = snap.burn_window().unwrap();
    let rate = tokens as f64 / secs as f64 * 60.0;
    assert!((rate - 600.0).abs() < 1.0, "expected ~600, got {rate}");
}

#[test]
fn test_burn_rate_long_session_prunes_old() {
    let mut snap = TokenSnapshot::default();
    accumulate(&mut snap, rec(500, 500, 0, 0), Some((BASE, 0)));
    accumulate(&mut snap, rec(50, 50, 0, 0), Some((BASE + 60, 0)));
    accumulate(&mut snap, rec(50, 50, 0, 0), Some((BASE + 80, 0)));
    let (tokens, secs) = snap.burn_window().unwrap();
    let rate = tokens as f64 / secs as f64 * 60.0;
    assert!((rate - 600.0).abs() < 1.0, "expected ~600, got {rate}");
    assert_eq!(snap.recent_turns.len(), 2);
    assert_eq!(snap.cumulative.input_tokens, 600);
}

#[test]
fn test_window_keeps_turn_exactly_thirty_seconds_old() {
    let mut snap = TokenSnapshot::default();
    accumulate(&mut snap, rec(1, 0, 0, 0), Some((0, 0)));
    accumulate(&mut snap, rec(1, 0, 0, 0), Some((30, 0)));
    assert_eq!(snap.recent_turns.len(), 2);
    accumulate(&mut snap, rec(1, 0, 0, 0), Some((30, 1)));
    assert_eq!(snap.recent_turns.len(), 2);
}

#[test]
fn test_parse_assistant_entry_and_timestamp() {
    let e = JsonlEntry {
        entry_type: Some("assistant".to_string()),
        usage: Some(rec(100, 50, 200, 300)),
        timestamp: Some("2026-03-31T12:00:00.000Z".to_string()),
    };
    let (r, ts) = parse_entry(&e).unwrap();
    assert_eq!(r.input_tokens, 100);
    assert_eq!(ts, Some((BASE, 0)));
}

#[test]
fn test_parse_user_and_missing_usage_entries() {
    let user = JsonlEntry { entry_type: Some("user".to_string()), usage: Some(rec(1, 1, 1, 1)), timestamp: None };
    assert!(parse_entry(&user).is_none());
    let no_usage = JsonlEntry { entry_type: Some("assistant".to_string()), usage: None, timestamp: None };
    assert!(parse_entry(&no_usage).is_none());
}

#[test]
fn test_parse_invalid_timestamp_gives_no_instant() {
    let e = JsonlEntry {
        entry_type: Some("assistant".to_string()),
        usage: Some(rec(10, 5, 0, 0)),
        timestamp: Some("not-a-date".to_string()),
    };
    let (r, ts) = parse_entry(&e).unwrap();
    assert_eq!(r.input_tokens, 10);
    assert!(ts.is_none());
}

#[test]
fn test_token_entry_with_parsed_instant() {
    let e = JsonlEntry { entry_type: Some("assistant".to_string()), usage: Some(rec(1, 2, 3, 4)), timestamp: None };
    let (_, ts) = token_entry(&e, Some((2, 500))).unwrap();
    assert_eq!(ts, Some((2, 500)));
}

#[test]
fn test_payload_and_project_key() {
    assert_eq!(jsonl_payload("  {} \n").as_deref(), Some("{}"));
    assert!(jsonl_payload("   ").is_none());
    assert_eq!(project_key("/Users/jay/projects/backend/devflow-tui"), "-Users-jay-projects-backend-devflow-tui");
}

#[test]
fn test_window_orders_leap_second_before_next_second() {
    // 23:59:60.5 is the last second of the day plus 1.5 s of nanoseconds;
    // it comes before 00:00:00.3 of the next day.
    let mut snap = TokenSnapshot::default();
    accumulate(&mut snap, rec(1, 0, 0, 0), Some((86_399, 1_500_000_000)));
    accumulate(&mut snap, rec(1, 0, 0, 0), Some((86_400 + 30, 300_000_000)));
    assert_eq!(snap.recent_turns.len(), 1);
    // 30 s before 23:59:60.5 is 23:59:30.5.
    let mut snap = TokenSnapshot::default();
    accumulate(&mut snap, rec(1, 0, 0, 0), Some((86_370, 499_999_999)));
    accumulate(&mut snap, rec(1, 0, 0, 0), Some((86_370, 500_000_000)));
    accumulate(&mut snap, rec(1, 0, 0, 0), Some((86_399, 1_500_000_000)));
    assert_eq!(snap.recent_turns.len(), 2);
}

#[test]
fn test_burn_window_spans_leap_second() {
    let mut snap = TokenSnapshot::default();
    accumulate(&mut snap, rec(30, 0, 0, 0), Some((86_399, 0)));
    accumulate(&mut snap, rec(30, 0, 0, 0), Some((86_399, 1_500_000_000)));
    accumulate(&mut snap, rec(30, 0, 0, 0), Some((86_402, 0)));
    assert_eq!(snap.burn_window(), Some((90, 3)));
}
