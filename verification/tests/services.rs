use devflow_tui::service::hook_config::{check_content, check_hooks_contents, generate_hooks_snippet, HookConfigStatus};
use devflow_tui::service::sanitizer::strip_ansi;
use devflow_tui::service::token::{generate_token, hex_of, validate_token};

#[test]
fn test_strip_ansi_escape_csi() {
    let input = "\x1b[31mError\x1b[0m: something failed";
    assert_eq!(strip_ansi(input), "Error: something failed");
}

#[test]
fn test_strip_ansi_escape_bold() {
    let input = "\x1b[1m\x1b[36mBold Cyan\x1b[0m";
    assert_eq!(strip_ansi(input), "Bold Cyan");
}

#[test]
fn test_no_ansi_passthrough() {
    let input = "plain text with no escapes";
    assert_eq!(strip_ansi(input), input);
}

#[test]
fn test_mixed_content() {
    let input = "[14:20] \x1b[32m✓\x1b[0m workspace-detection → B (Approve)";
    assert_eq!(strip_ansi(input), "[14:20] ✓ workspace-detection → B (Approve)");
}

#[test]
fn test_strip_osc_sequence() {
    let input = "\x1b]0;window title\x07normal text";
    assert_eq!(strip_ansi(input), "normal text");
}

#[test]
fn test_strip_trailing_esc() {
    let input = "text\x1b";
    assert_eq!(strip_ansi(input), "text");
}

#[test]
fn test_empty_string() {
    assert_eq!(strip_ansi(""), "");
}

#[test]
fn test_strip_ansi_idempotent_and_removes_every_escape() {
    let input = "a\x1b[1;2Hb\x1bXc\x1b]2;t\x1b\\d";
    let once = strip_ansi(input);
    assert!(!once.contains('\x1b'));
    assert_eq!(strip_ansi(&once), once);
}

#[test]
fn test_validate_token() {
    assert!(validate_token("abc123", "abc123"));
    assert!(!validate_token("abc123", "abc124"));
    assert!(!validate_token("abc123", "abc12"));
}

#[test]
fn test_validate_token_multibyte() {
    assert!(validate_token("토큰", "토큰"));
    assert!(!validate_token("토큰", "토콘"));
    assert!(!validate_token("", "x"));
    assert!(validate_token("", ""));
}

#[test]
fn test_generate_token_length() {
    let token = generate_token().unwrap();
    assert_eq!(token.len(), 64);
}

#[test]
fn test_generate_token_is_hex() {
    let token = generate_token().unwrap();
    assert!(token.chars().all(|c| c.is_ascii_hexdigit()));
}

#[test]
fn test_generate_token_is_random() {
    let token1 = generate_token().unwrap();
    let token2 = generate_token().unwrap();
    assert_ne!(token1, token2);
}

#[test]
fn test_hex_encoding() {
    assert_eq!(hex_of(&vec![0x00, 0x0f, 0xa5, 0xff]), "000fa5ff");
    assert_eq!(hex_of(&vec![]), "");
}

#[test]
fn test_generate_hooks_snippet() {
    let snippet = generate_hooks_snippet(9100, "mytoken123");
    assert!(snippet.contains("localhost:9100"));
    assert!(snippet.contains("mytoken123"));
    assert!(snippet.contains("SubagentStart"));
    assert!(snippet.contains("SubagentStop"));
    assert!(snippet.contains("Stop"));
}

#[test]
fn test_hooks_snippet_is_the_settings_block() {
    let snippet = generate_hooks_snippet(9100, "t");
    assert!(snippet.starts_with("{\n  \"hooks\": {\n    \"SubagentStart\": [\n"));
    assert!(snippet.ends_with("    ]\n  }\n}"));
    assert_eq!(snippet.matches("\"url\": \"http://localhost:9100/hook?token=t\"").count(), 5);
    assert!(snippet.contains("\"PreToolUse\""));
    assert!(snippet.contains("\"PostToolUse\""));
}

#[test]
fn hook_config_test_check_hooks_not_configured() {
    let status = check_hooks_contents(&vec![None, None], 9100, "testtoken");
    assert_eq!(status, HookConfigStatus::NotConfigured);
}

#[test]
fn hook_config_test_check_hooks_configured() {
    let content = r#"{"hooks":{"SubagentStart":[{"hooks":[{"type":"http","url":"http://localhost:9100/hook?token=abc"}]}]}}"#;
    let status = check_hooks_contents(&vec![Some(content.to_string()), None], 9100, "abc");
    assert_eq!(status, HookConfigStatus::Configured);
}

#[test]
fn test_check_hooks_token_mismatch() {
    let content = r#"{"hooks":{"SubagentStart":[{"hooks":[{"type":"http","url":"http://localhost:9100/hook?token=oldtoken"}]}]}}"#;
    let status = check_hooks_contents(&vec![Some(content.to_string()), None], 9100, "newtoken");
    assert!(matches!(status, HookConfigStatus::EndpointMismatch { .. }));
}

#[test]
fn test_check_hooks_endpoint_mismatch() {
    let content = r#"{"hooks":{"SubagentStart":[{"hooks":[{"type":"http","url":"http://localhost:9200/hook?token=abc"}]}]}}"#;
    let status = check_hooks_contents(&vec![Some(content.to_string()), None], 9100, "abc");
    assert!(matches!(status, HookConfigStatus::EndpointMismatch { .. }));
}

#[test]
fn test_check_content_details() {
    assert_eq!(
        check_content("x 127.0.0.1:9100/hook?token=k", 9100, "k"),
        Some(HookConfigStatus::Configured)
    );
    assert_eq!(
        check_content("localhost:9100/other", 9100, "k"),
        Some(HookConfigStatus::EndpointMismatch {
            configured_url: "port 9100 matched but token mismatch".to_string()
        })
    );
    assert_eq!(
        check_content("{\n  \"url\": \"http://localhost:9200/hook\",\n}", 9100, "k"),
        Some(HookConfigStatus::EndpointMismatch {
            configured_url: "url\": \"http://localhost:9200/hook\"".to_string()
        })
    );
    assert_eq!(check_content("localhost: nothing here", 9100, "k"), None);
    assert_eq!(check_content("{}", 9100, "k"), None);
}

#[test]
fn test_check_hooks_user_file_consulted_when_project_says_nothing() {
    let user = "http://localhost:9100/hook?token=k";
    assert_eq!(
        check_hooks_contents(&vec![Some("{}".to_string()), Some(user.to_string())], 9100, "k"),
        HookConfigStatus::Configured
    );
}

#[test]
fn test_check_content_snippet_is_configured() {
    let snippet = generate_hooks_snippet(9100, "abc123");
    assert_eq!(check_content(&snippet, 9100, "abc123"), Some(HookConfigStatus::Configured));
    assert_eq!(check_content("http://127.0.0.1:9100/hook?token=abc123", 9100, "abc123"), Some(HookConfigStatus::Configured));
}

#[test]
fn test_check_content_longer_token_is_mismatch() {
    let snippet = generate_hooks_snippet(9100, "abc123");
    assert_eq!(
        check_content(&snippet, 9100, "abc"),
        Some(HookConfigStatus::EndpointMismatch { configured_url: "port 9100 matched but token mismatch".to_string() })
    );
}

#[test]
fn test_strip_ansi_plain_prefix_kept() {
    let rest = "\x1b[1mbold\x1b[0m tail";
    let joined = format!("plain {rest}");
    assert_eq!(strip_ansi(&joined), format!("plain {}", strip_ansi(rest)));
    assert!(strip_ansi(&joined).len() <= joined.len());
}

#[test]
fn test_check_content_url_with_more_parameters_is_configured() {
    assert_eq!(
        check_content("\"url\": \"http://localhost:9100/hook?token=abc&x=1\"", 9100, "abc"),
        Some(HookConfigStatus::Configured)
    );
    assert_eq!(
        check_content("\"url\": \"http://localhost:9100/hook?token=abcd&x=1\"", 9100, "abc"),
        Some(HookConfigStatus::EndpointMismatch { configured_url: "port 9100 matched but token mismatch".to_string() })
    );
}
