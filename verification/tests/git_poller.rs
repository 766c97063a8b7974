use devflow_tui::adapter::git_poller::{
    parse_diff_stat, parse_log_oneline, parse_status_porcelain_v2, parse_worktree_porcelain,
};
use devflow_tui::parser::models::{GitChange, GitChangeStatus};

#[test]
fn test_parse_status_porcelain_v2_staged_and_unstaged() {
    let output = "\
1 M. N... 100644 100644 100644 abc1234567890123456789012345678901234567890 def4567890123456789012345678901234567890 src/main.rs
1 .M N... 100644 100644 100644 abc1234567890123456789012345678901234567890 def4567890123456789012345678901234567890 src/lib.rs
";
    let changes = parse_status_porcelain_v2(output);
    assert_eq!(changes.len(), 2);
    assert_eq!(changes[0].status, GitChangeStatus::Staged);
    assert_eq!(changes[0].path, "src/main.rs");
    assert_eq!(changes[1].status, GitChangeStatus::Unstaged);
    assert_eq!(changes[1].path, "src/lib.rs");
}

#[test]
fn test_parse_status_untracked() {
    let output = "? new_file.rs\n? another.txt\n";
    let changes = parse_status_porcelain_v2(output);
    assert_eq!(changes.len(), 2);
    assert_eq!(changes[0].status, GitChangeStatus::Untracked);
    assert_eq!(changes[0].path, "new_file.rs");
}

#[test]
fn test_parse_status_conflict() {
    let output = "\
u UU N... 100644 100644 100644 100644 abc1234567890123456789012345678901234567890 def4567890123456789012345678901234567890 ghi4567890123456789012345678901234567890 src/conflict.rs
";
    let changes = parse_status_porcelain_v2(output);
    assert_eq!(changes.len(), 1);
    assert_eq!(changes[0].status, GitChangeStatus::Conflict);
    assert_eq!(changes[0].path, "src/conflict.rs");
}

#[test]
fn test_parse_status_empty() {
    let changes = parse_status_porcelain_v2("");
    assert!(changes.is_empty());
}

#[test]
fn test_parse_status_both_sides_rename_and_spaces_in_path() {
    let output = "1 MM N... 1 2 3 h1 h2 a dir/with space.rs\n2 R. N... 1 2 3 h1 h2 R100 new.rs\told.rs\n1 M.\n";
    let changes = parse_status_porcelain_v2(output);
    assert_eq!(changes.len(), 3);
    assert_eq!(changes[0].status, GitChangeStatus::Staged);
    assert_eq!(changes[0].path, "a dir/with space.rs");
    assert_eq!(changes[1].status, GitChangeStatus::Unstaged);
    assert_eq!(changes[2].status, GitChangeStatus::Staged);
    assert_eq!(changes[2].path, "new.rs");
}

#[test]
fn test_parse_log_oneline() {
    let output = "a1b2c3d feat: add parser module\nd4e5f6a init: project setup\n";
    let commits = parse_log_oneline(output);
    assert_eq!(commits.len(), 2);
    assert_eq!(commits[0].hash, "a1b2c3d");
    assert_eq!(commits[0].message, "feat: add parser module");
    assert_eq!(commits[1].hash, "d4e5f6a");
}

#[test]
fn test_parse_log_empty() {
    let commits = parse_log_oneline("");
    assert!(commits.is_empty());
}

#[test]
fn test_parse_log_hash_only_line() {
    let commits = parse_log_oneline("  abc123  \n\n");
    assert_eq!(commits.len(), 1);
    assert_eq!(commits[0].hash, "abc123");
    assert_eq!(commits[0].message, "");
}

#[test]
fn test_parse_worktree_porcelain() {
    let output = "worktree /Users/jay/project\nHEAD abc123\nbranch refs/heads/main\n\n\
                   worktree /Users/jay/project-feat\nHEAD def456\nbranch refs/heads/feature/tui\n\n";
    let wts = parse_worktree_porcelain(output);
    assert_eq!(wts.len(), 2);
    assert_eq!(wts[0].path, "/Users/jay/project");
    assert_eq!(wts[0].branch.as_deref(), Some("main"));
    assert_eq!(wts[1].branch.as_deref(), Some("feature/tui"));
}

#[test]
fn test_parse_worktree_empty() {
    let wts = parse_worktree_porcelain("");
    assert!(wts.is_empty());
}

#[test]
fn test_parse_worktree_detached_without_trailing_blank() {
    let wts = parse_worktree_porcelain("worktree /a\nHEAD 1\ndetached\nworktree /b\nbranch refs/heads/x");
    assert_eq!(wts.len(), 2);
    assert_eq!(wts[0].path, "/a");
    assert!(wts[0].branch.is_none());
    assert_eq!(wts[1].branch.as_deref(), Some("x"));
    assert!(!wts[1].is_current);
}

#[test]
fn test_parse_diff_stat() {
    let output = " src/main.rs | 42 +++++++-\n src/lib.rs  | 18 +++\n 2 files changed, 57 insertions(+), 3 deletions(-)\n";
    let stat = parse_diff_stat(output);
    assert_eq!(stat.additions, 57);
    assert_eq!(stat.deletions, 3);
}

#[test]
fn test_parse_diff_stat_empty() {
    let stat = parse_diff_stat("");
    assert_eq!(stat.additions, 0);
    assert_eq!(stat.deletions, 0);
}

#[test]
fn test_parse_diff_stat_insertions_only() {
    let output = " 1 file changed, 10 insertions(+)\n";
    let stat = parse_diff_stat(output);
    assert_eq!(stat.additions, 10);
    assert_eq!(stat.deletions, 0);
}

#[test]
fn test_parse_diff_stat_unparsable_and_plus_sign() {
    let stat = parse_diff_stat(" 1 file changed, +7 insertion(+), x deletions(-)");
    assert_eq!(stat.additions, 7);
    assert_eq!(stat.deletions, 0);
    let big = parse_diff_stat(" 1 file changed, 4294967296 insertions(+)");
    assert_eq!(big.additions, 0);
}

#[test]
fn test_status_joined_outputs() {
    let a = "1 M. N... 100644 100644 100644 abc def src/a.rs\r";
    let b = "# branch.head main\n? new.txt";
    let joined = format!("{a}\n{b}");
    let view = |v: Vec<GitChange>| -> Vec<(GitChangeStatus, String)> {
        v.into_iter().map(|c| (c.status, c.path)).collect()
    };
    let mut expected = view(parse_status_porcelain_v2(a));
    expected.extend(view(parse_status_porcelain_v2(b)));
    assert_eq!(view(parse_status_porcelain_v2(&joined)), expected);
    assert_eq!(
        expected,
        vec![(GitChangeStatus::Staged, "src/a.rs".to_string()), (GitChangeStatus::Untracked, "new.txt".to_string())]
    );
    assert!(parse_status_porcelain_v2(&joined).iter().all(|c| c.additions.is_none() && c.deletions.is_none()));
}
