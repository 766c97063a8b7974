use devflow_tui::adapter::file_watcher::{
    artifact_entry, audit_file_name, has_extension, lex_le_chars, sort_artifacts,
};
use devflow_tui::adapter::git_poller::{git_output, snapshot_from_outputs};
use devflow_tui::adapter::jsonl_watcher::{
    consume_chunk, newest_index, read_window, MAX_READ_CHUNK,
};
use devflow_tui::parser::models::{ArtifactFile, GitChangeStatus};
use devflow_tui::service::token::reusable_token;

#[test]
fn extension_follows_path_rules() {
    assert!(has_extension("plan.md", "md"));
    assert!(has_extension("a.b.md", "md"));
    assert!(has_extension("..md", "md"));
    assert!(!has_extension(".md", "md"));
    assert!(!has_extension("md", "md"));
    assert!(!has_extension("plan.mdx", "md"));
    assert!(!has_extension("plan.md.bak", "md"));
    assert!(!has_extension("..", ""));
    assert!(has_extension("trailing.", ""));
    assert!(has_extension("session.jsonl", "jsonl"));
    assert!(!has_extension("session.json", "jsonl"));
}

#[test]
fn audit_file_prefers_audit_md() {
    assert_eq!(audit_file_name(true, true), Some("audit.md"));
    assert_eq!(audit_file_name(true, false), Some("audit.md"));
    assert_eq!(audit_file_name(false, true), Some("devflow-audit.md"));
    assert_eq!(audit_file_name(false, false), None);
}

#[test]
fn artifact_entries_are_markdown_only() {
    let a = artifact_entry("docs/inception/plan.md".to_string(), "plan.md".to_string()).unwrap();
    assert_eq!(a.path, "docs/inception/plan.md");
    assert_eq!(a.name, "plan.md");
    assert!(artifact_entry("docs/inception/notes.txt".to_string(), "notes.txt".to_string()).is_none());
}

fn art(path: &str) -> ArtifactFile {
    ArtifactFile { path: path.to_string(), name: path.rsplit('/').next().unwrap().to_string() }
}

#[test]
fn artifacts_sorted_by_path() {
    let v = vec![
        art("d/inception/z.md"),
        art("d/construction/b.md"),
        art("d/inception/a.md"),
        art("d/construction/a.md"),
    ];
    let sorted = sort_artifacts(v);
    let paths: Vec<&str> = sorted.iter().map(|a| a.path.as_str()).collect();
    assert_eq!(
        paths,
        vec!["d/construction/a.md", "d/construction/b.md", "d/inception/a.md", "d/inception/z.md"]
    );
    assert!(sort_artifacts(Vec::new()).is_empty());
}

#[test]
fn lexicographic_order_matches_str_order() {
    let cases = [("a", "b"), ("ab", "a"), ("", "x"), ("abc", "abc"), ("가", "a"), ("Z", "a")];
    for (a, b) in cases {
        let ac: Vec<char> = a.chars().collect();
        let bc: Vec<char> = b.chars().collect();
        assert_eq!(lex_le_chars(&ac, &bc), a <= b, "{a} vs {b}");
    }
}

#[test]
fn read_window_caps_and_detects_nothing_new() {
    assert_eq!(read_window(100, 100), None);
    assert_eq!(read_window(50, 100), None);
    assert_eq!(read_window(150, 100), Some(50));
    assert_eq!(read_window(MAX_READ_CHUNK * 3, 0), Some(MAX_READ_CHUNK));
}

#[test]
fn consume_chunk_stops_at_last_newline() {
    assert_eq!(consume_chunk(10, b"{\"a\":1}\n{\"b\""), Some((18, 8)));
    assert_eq!(consume_chunk(0, b"one\ntwo\n"), Some((8, 8)));
    assert_eq!(consume_chunk(5, b"partial"), None);
    assert_eq!(consume_chunk(5, b""), None);
}

#[test]
fn newest_index_takes_first_of_latest() {
    assert_eq!(newest_index(&vec![]), None);
    assert_eq!(newest_index(&vec![5]), Some(0));
    assert_eq!(newest_index(&vec![1, 9, 3, 9]), Some(1));
    assert_eq!(newest_index(&vec![-4, -2, -3]), Some(1));
}

#[test]
fn git_output_strips_escapes() {
    assert_eq!(git_output(true, "\x1b[32mmain\x1b[0m\n", ""), Ok("main\n".to_string()));
    assert_eq!(
        git_output(false, "", "  fatal: \x1b[1mnot a git repository\x1b[0m \n"),
        Err("fatal: not a git repository".to_string())
    );
}

#[test]
fn snapshot_from_outputs_requires_branch_and_head() {
    let e = snapshot_from_outputs(Err("no repo".to_string()), Err("x".to_string()), "", "", "", "")
        .unwrap_err();
    assert_eq!(e.command, "git rev-parse --abbrev-ref HEAD");
    assert_eq!(e.stderr, "no repo");
    let e = snapshot_from_outputs(Ok("main".to_string()), Err("bad head".to_string()), "", "", "", "")
        .unwrap_err();
    assert_eq!(e.command, "git rev-parse --short HEAD");
    assert_eq!(e.stderr, "bad head");
}

#[test]
fn snapshot_from_outputs_parses_each_output() {
    let status = "1 M. N... 100644 100644 100644 abc def src/main.rs\n";
    let log = "abc1234 first commit\ndef5678 second\n";
    let wt = "worktree /repo\nHEAD abc\nbranch refs/heads/main\n";
    let diff = " 2 files changed, 5 insertions(+), 1 deletion(-)\n";
    let snap = snapshot_from_outputs(
        Ok("  main\n".to_string()),
        Ok("\x1b[33mabc1234\x1b[0m\n".to_string()),
        status,
        log,
        wt,
        diff,
    )
    .unwrap();
    assert_eq!(snap.branch, "main");
    assert_eq!(snap.head, "abc1234");
    assert_eq!(snap.changes.len(), 1);
    assert_eq!(snap.changes[0].status, GitChangeStatus::Staged);
    assert_eq!(snap.commits.len(), 2);
    assert_eq!(snap.commits[1].message, "second");
    assert_eq!(snap.worktrees.len(), 1);
    assert_eq!(snap.worktrees[0].branch.as_deref(), Some("main"));
    assert_eq!(snap.diff_stat.additions, 5);
    assert_eq!(snap.diff_stat.deletions, 1);
}

#[test]
fn reusable_token_trims_and_respects_regenerate() {
    assert_eq!(reusable_token(Some("  abc123\n"), false), Some("abc123".to_string()));
    assert_eq!(reusable_token(Some("abc123"), true), None);
    assert_eq!(reusable_token(Some("  \n"), false), None);
    assert_eq!(reusable_token(None, false), None);
}
