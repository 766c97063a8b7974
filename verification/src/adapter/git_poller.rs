//! Parsers for the output of the git commands the poller runs:
//! `status --porcelain=v2`, `log --oneline`, `worktree list --porcelain`
//! and `diff --stat`, and how one poll's outputs become a snapshot.

use vstd::prelude::*;

use crate::parser::models::{
    change_views, commit_views, worktree_views, DiffStat, GitChange, GitChangeStatus, GitChangeV,
    GitCommit, GitCommitV, GitSnapshot, GitSnapshotV, GitWorktree, GitWorktreeV,
};
use crate::service::sanitizer::{strip_ansi, strip_ansi_chars, strip_ansi_spec};
use crate::parser::section::collect_some;
use crate::text::{
    chars_of, contains_chars, contains_str, is_whitespace, is_ws, lemma_split_on_join,
    lemma_split_on_nonempty, lemma_trim_drop_ws, lines, lines_of, strip_cr, opt_view, parse_uint, parse_uint_chars, slice_to_vec, split_on, split_once,
    split_once_chars, string_of, strip_prefix, strip_prefix_chars, trim, trimmed, views, decimal,
    lemma_decimal_digits, lemma_ws_prefix_len_unique, lemma_ws_suffix_len_unique, occurs_at, trim_start,
    ws_prefix_len, ws_suffix_len, digits_value,
};

verus! {

broadcast use vstd::seq_lib::group_seq_properties;

// ---------------------------------------------------------------------
// Field splitting
// ---------------------------------------------------------------------

/// `str::splitn(n, ' ')`: at most `n` pieces, the last one the unsplit rest.
pub open spec fn splitn_spaces(s: Seq<char>, n: nat) -> Seq<Seq<char>>
    decreases n,
{
    if n == 0 {
        Seq::empty()
    } else if n == 1 {
        seq![s]
    } else {
        match split_once(s, ' ') {
            Some((a, b)) => seq![a] + splitn_spaces(b, (n - 1) as nat),
            None => seq![s],
        }
    }
}

fn splitn_spaces_chars(v: &[char], n: usize) -> (r: Vec<Vec<char>>)
    requires
        n >= 1,
    ensures
        views(r@) == splitn_spaces(v@, n as nat),
{
    let mut parts: Vec<Vec<char>> = Vec::new();
    let mut rest: Vec<char> = slice_to_vec(v, 0, v.len());
    let mut k: usize = n;
    proof {
        assert(rest@ =~= v@);
        assert(views(parts@) =~= Seq::<Seq<char>>::empty());
    }
    while k > 1
        invariant
            1 <= k <= n,
            views(parts@) + splitn_spaces(rest@, k as nat) == splitn_spaces(v@, n as nat),
        decreases k,
    {
        match split_once_chars(&rest, ' ') {
            Some((a, b)) => {
                let ghost before = views(parts@);
                let ghost av = a@;
                parts.push(a);
                proof {
                    assert(views(parts@) =~= before.push(av));
                    assert(splitn_spaces(rest@, k as nat) == seq![av] + splitn_spaces(b@, (k - 1) as nat));
                    assert(before + (seq![av] + splitn_spaces(b@, (k - 1) as nat)) =~= before.push(av) + splitn_spaces(b@, (k - 1) as nat));
                }
                rest = b;
                k = k - 1;
            },
            None => {
                let ghost before = views(parts@);
                let ghost rv = rest@;
                parts.push(rest);
                proof {
                    assert(views(parts@) =~= before.push(rv));
                    assert(before + seq![rv] =~= before.push(rv));
                }
                return parts;
            },
        }
    }
    let ghost before = views(parts@);
    let ghost rv = rest@;
    parts.push(rest);
    proof {
        assert(views(parts@) =~= before.push(rv));
        assert(before + seq![rv] =~= before.push(rv));
    }
    parts
}

// ---------------------------------------------------------------------
// git status --porcelain=v2
// ---------------------------------------------------------------------

/// The index column of an ordinary entry shows a change: its first byte is
/// neither `.` nor `?` (a missing column counts as `.`).
pub open spec fn staged_flag(xy: Seq<char>) -> bool {
    xy.len() > 0 && xy[0] != '.' && xy[0] != '?'
}

/// The work-tree column shows a change: the entry's second byte is neither
/// `.` nor `?`. When the first character is not ASCII, the second byte is
/// part of its UTF-8 encoding, and so never one of those.
pub open spec fn unstaged_flag(xy: Seq<char>) -> bool {
    if xy.len() == 0 {
        false
    } else if xy[0] as int >= 0x80 {
        true
    } else {
        xy.len() >= 2 && xy[1] != '.' && xy[1] != '?'
    }
}

pub open spec fn change(status: GitChangeStatus, path: Seq<char>) -> GitChangeV {
    GitChangeV { status: status, path: path, additions: None, deletions: None }
}

/// The changes one status line reports.
pub open spec fn status_line_changes(line: Seq<char>) -> Seq<GitChangeV> {
    let t = trim(line);
    if let Some(rest) = strip_prefix(t, "1 "@) {
        let parts = splitn_spaces(rest, 8);
        if parts.len() >= 8 {
            let xy = parts[0];
            let path = parts[7];
            (if staged_flag(xy) { seq![change(GitChangeStatus::Staged, path)] } else { Seq::empty() })
                + (if unstaged_flag(xy) { seq![change(GitChangeStatus::Unstaged, path)] } else { Seq::empty() })
        } else {
            Seq::empty()
        }
    } else if let Some(rest) = strip_prefix(t, "2 "@) {
        let parts = splitn_spaces(rest, 9);
        if parts.len() >= 9 {
            let path = match split_once(parts[8], '\t') {
                Some((a, _)) => a,
                None => parts[8],
            };
            seq![change(GitChangeStatus::Staged, path)]
        } else {
            Seq::empty()
        }
    } else if let Some(rest) = strip_prefix(t, "u "@) {
        let parts = splitn_spaces(rest, 10);
        if parts.len() >= 10 {
            seq![change(GitChangeStatus::Conflict, parts[9])]
        } else {
            Seq::empty()
        }
    } else if let Some(rest) = strip_prefix(t, "? "@) {
        seq![change(GitChangeStatus::Untracked, rest)]
    } else {
        Seq::empty()
    }
}

pub open spec fn status_changes(ls: Seq<Seq<char>>) -> Seq<GitChangeV>
    decreases ls.len(),
{
    if ls.len() == 0 {
        Seq::empty()
    } else {
        status_changes(ls.drop_last()) + status_line_changes(ls.last())
    }
}

proof fn lemma_status_changes_concat(x: Seq<Seq<char>>, y: Seq<Seq<char>>)
    ensures
        status_changes(x + y) == status_changes(x) + status_changes(y),
    decreases y.len(),
{
    if y.len() == 0 {
        assert(x + y =~= x);
    } else {
        lemma_status_changes_concat(x, y.drop_last());
        assert((x + y).drop_last() =~= x + y.drop_last());
        assert((x + y).last() == y.last());
    }
}

proof fn lemma_status_line_empty()
    ensures
        status_line_changes(Seq::<char>::empty()) == Seq::<GitChangeV>::empty(),
{
    reveal_strlit("1 ");
    reveal_strlit("2 ");
    reveal_strlit("u ");
    reveal_strlit("? ");
    assert(trim(Seq::<char>::empty()) =~= Seq::<char>::empty());
}

/// A carriage return at the end of a status line changes nothing: it is
/// trimmed away.
proof fn lemma_status_line_cr(l: Seq<char>)
    ensures
        status_line_changes(strip_cr(l)) == status_line_changes(l),
{
    if l.len() > 0 && l.last() == '\r' {
        assert(is_ws(l.last()));
        lemma_trim_drop_ws(l);
    }
}

proof fn lemma_status_changes_strip_cr(x: Seq<Seq<char>>)
    ensures
        status_changes(x.map_values(|l: Seq<char>| strip_cr(l))) == status_changes(x),
    decreases x.len(),
{
    if x.len() > 0 {
        let m = x.map_values(|l: Seq<char>| strip_cr(l));
        lemma_status_changes_strip_cr(x.drop_last());
        assert(m.drop_last() =~= x.drop_last().map_values(|l: Seq<char>| strip_cr(l)));
        lemma_status_line_cr(x.last());
    }
}

/// The changes of the lines of `s`, through its pieces between newlines.
proof fn lemma_status_of_pieces(s: Seq<char>)
    ensures
        status_changes(lines(s)) == status_changes(split_on(s, '\n')),
{
    let p = split_on(s, '\n');
    lemma_split_on_nonempty(s, '\n');
    let m = p.drop_last().map_values(|l: Seq<char>| strip_cr(l));
    lemma_status_changes_strip_cr(p.drop_last());
    lemma_status_line_empty();
    assert(p.drop_last().push(p.last()) =~= p);
    if p.last().len() > 0 {
        assert(lines(s).drop_last() =~= m);
    } else {
        assert(p.last() =~= Seq::<char>::empty());
        assert(status_changes(p) == status_changes(p.drop_last()) + Seq::<GitChangeV>::empty());
        assert(status_changes(p.drop_last()) + Seq::<GitChangeV>::empty() =~= status_changes(p.drop_last()));
    }
}

/// Status output joined at a newline gives the changes of each part, in
/// order.
pub proof fn lemma_status_join(a: Seq<char>, b: Seq<char>)
    ensures
        status_changes(lines(a + seq!['\n'] + b)) == status_changes(lines(a)) + status_changes(lines(b)),
{
    lemma_split_on_join(a, b, '\n');
    lemma_status_of_pieces(a + seq!['\n'] + b);
    lemma_status_of_pieces(a);
    lemma_status_of_pieces(b);
    lemma_status_changes_concat(split_on(a, '\n'), split_on(b, '\n'));
}

/// Every change that status output reports comes without line counts.
pub proof fn lemma_status_changes_uncounted(ls: Seq<Seq<char>>)
    ensures
        forall|k: int|
            0 <= k < status_changes(ls).len() ==> (#[trigger] status_changes(ls)[k]).additions is None
                && status_changes(ls)[k].deletions is None,
    decreases ls.len(),
{
    if ls.len() > 0 {
        lemma_status_changes_uncounted(ls.drop_last());
        let x = status_changes(ls.drop_last());
        let y = status_line_changes(ls.last());
        assert forall|k: int| 0 <= k < y.len() implies (#[trigger] y[k]).additions is None && y[k].deletions is None by {
        }
        assert forall|k: int| 0 <= k < (x + y).len() implies (#[trigger] (x + y)[k]).additions is None
            && (x + y)[k].deletions is None by {
            if k < x.len() {
                assert((x + y)[k] == x[k]);
            } else {
                assert((x + y)[k] == y[k - x.len()]);
            }
        }
    }
}

fn push_change(out: &mut Vec<GitChange>, status: GitChangeStatus, path: &[char])
    ensures
        change_views(final(out)@) == change_views(old(out)@).push(change(status, path@)),
{
    let ghost before = change_views(out@);
    out.push(GitChange { status, path: string_of(path), additions: None, deletions: None });
    proof {
        assert(change_views(out@) =~= before.push(change(status, path@)));
    }
}

fn status_line(out: &mut Vec<GitChange>, line: &[char])
    ensures
        change_views(final(out)@) == change_views(old(out)@) + status_line_changes(line@),
{
    let ghost before = change_views(out@);
    let t = trimmed(line);
    if let Some(rest) = strip_prefix_chars(&t, &chars_of("1 ")) {
        let parts = splitn_spaces_chars(&rest, 8);
        if parts.len() >= 8 {
            let xy = &parts[0];
            let path = &parts[7];
            let staged = xy.len() > 0 && xy[0] != '.' && xy[0] != '?';
            let unstaged = if xy.len() == 0 {
                false
            } else if xy[0] >= '\u{80}' {
                true
            } else {
                xy.len() >= 2 && xy[1] != '.' && xy[1] != '?'
            };
            assert(staged == staged_flag(xy@));
            assert(unstaged == unstaged_flag(xy@));
            if staged {
                push_change(out, GitChangeStatus::Staged, path);
            }
            if unstaged {
                push_change(out, GitChangeStatus::Unstaged, path);
            }
            proof {
                assert(change_views(out@) =~= before + status_line_changes(line@));
            }
        } else {
            assert(change_views(out@) =~= before + status_line_changes(line@));
        }
    } else if let Some(rest) = strip_prefix_chars(&t, &chars_of("2 ")) {
        let parts = splitn_spaces_chars(&rest, 9);
        if parts.len() >= 9 {
            let p8 = &parts[8];
            match split_once_chars(p8, '\t') {
                Some((a, _)) => push_change(out, GitChangeStatus::Staged, &a),
                None => push_change(out, GitChangeStatus::Staged, p8),
            }
        }
        assert(change_views(out@) =~= before + status_line_changes(line@));
    } else if let Some(rest) = strip_prefix_chars(&t, &chars_of("u ")) {
        let parts = splitn_spaces_chars(&rest, 10);
        if parts.len() >= 10 {
            push_change(out, GitChangeStatus::Conflict, &parts[9]);
        }
        assert(change_views(out@) =~= before + status_line_changes(line@));
    } else if let Some(rest) = strip_prefix_chars(&t, &chars_of("? ")) {
        push_change(out, GitChangeStatus::Untracked, &rest);
        assert(change_views(out@) =~= before + status_line_changes(line@));
    } else {
        assert(change_views(out@) =~= before + status_line_changes(line@));
    }
}

/// Parse `git status --porcelain=v2` output: one change per staged or
/// unstaged side of an ordinary entry, a staged change per rename or copy,
/// a conflict per unmerged entry and an untracked change per `?` entry.
pub fn parse_status_porcelain_v2(output: &str) -> (r: Vec<GitChange>)
    ensures
        change_views(r@) == status_changes(lines(output@)),
{
    let ls = lines_of(&chars_of(output));
    let ghost lsv = views(ls@);
    let mut out: Vec<GitChange> = Vec::new();
    let mut i: usize = 0;
    proof {
        assert(change_views(out@) =~= Seq::<GitChangeV>::empty());
    }
    while i < ls.len()
        invariant
            i <= ls@.len(),
            lsv == views(ls@),
            change_views(out@) == status_changes(lsv.take(i as int)),
        decreases ls.len() - i,
    {
        proof {
            assert(lsv.take(i + 1).drop_last() =~= lsv.take(i as int));
        }
        status_line(&mut out, &ls[i]);
        i = i + 1;
    }
    proof {
        assert(lsv.take(i as int) =~= lsv);
    }
    out
}

// ---------------------------------------------------------------------
// git log --oneline
// ---------------------------------------------------------------------

/// `hash message`: the text before the first space and the rest.
pub open spec fn commit_line(line: Seq<char>) -> Option<GitCommitV> {
    let t = trim(line);
    if t.len() == 0 {
        None
    } else {
        match split_once(t, ' ') {
            Some((h, m)) => Some(GitCommitV { hash: h, message: m }),
            None => Some(GitCommitV { hash: t, message: Seq::empty() }),
        }
    }
}

pub open spec fn commit_line_fn() -> spec_fn(Seq<char>) -> Option<GitCommitV> {
    |l: Seq<char>| commit_line(l)
}

/// Parse `git log --oneline` output: one commit per non-blank line.
pub fn parse_log_oneline(output: &str) -> (r: Vec<GitCommit>)
    ensures
        commit_views(r@) == collect_some(lines(output@), commit_line_fn()),
{
    let ls = lines_of(&chars_of(output));
    let ghost lsv = views(ls@);
    let mut out: Vec<GitCommit> = Vec::new();
    let mut i: usize = 0;
    proof {
        assert(commit_views(out@) =~= Seq::<GitCommitV>::empty());
    }
    while i < ls.len()
        invariant
            i <= ls@.len(),
            lsv == views(ls@),
            commit_views(out@) == collect_some(lsv.take(i as int), commit_line_fn()),
        decreases ls.len() - i,
    {
        proof {
            assert(lsv.take(i + 1).drop_last() =~= lsv.take(i as int));
        }
        let t = trimmed(&ls[i]);
        if t.len() > 0 {
            let c = match split_once_chars(&t, ' ') {
                Some((h, m)) => GitCommit { hash: string_of(&h), message: string_of(&m) },
                None => GitCommit { hash: string_of(&t), message: String::new() },
            };
            let ghost before = commit_views(out@);
            let ghost cv = c@;
            out.push(c);
            proof {
                assert(commit_views(out@) =~= before.push(cv));
            }
        }
        i = i + 1;
    }
    proof {
        assert(lsv.take(i as int) =~= lsv);
    }
    out
}

// ---------------------------------------------------------------------
// git worktree list --porcelain
// ---------------------------------------------------------------------

pub ghost struct WorktreeScan {
    pub done: Seq<GitWorktreeV>,
    pub path: Option<Seq<char>>,
    pub branch: Option<Seq<char>>,
}

/// The scan with its open record, if any, closed.
pub open spec fn close_worktree(a: WorktreeScan) -> WorktreeScan {
    match a.path {
        Some(p) => WorktreeScan {
            done: a.done.push(GitWorktreeV { path: p, branch: a.branch, is_current: false }),
            path: None,
            branch: None,
        },
        None => a,
    }
}

pub open spec fn worktree_line(a: WorktreeScan, line: Seq<char>) -> WorktreeScan {
    if let Some(p) = strip_prefix(line, "worktree "@) {
        WorktreeScan { done: close_worktree(a).done, path: Some(p), branch: None }
    } else if let Some(b) = strip_prefix(line, "branch refs/heads/"@) {
        WorktreeScan { branch: Some(b), ..a }
    } else if line.len() == 0 {
        close_worktree(a)
    } else {
        a
    }
}

pub open spec fn worktree_scan(ls: Seq<Seq<char>>) -> WorktreeScan
    decreases ls.len(),
{
    if ls.len() == 0 {
        WorktreeScan { done: Seq::empty(), path: None, branch: None }
    } else {
        worktree_line(worktree_scan(ls.drop_last()), ls.last())
    }
}

fn close_worktree_exec(
    out: &mut Vec<GitWorktree>,
    path: &mut Option<Vec<char>>,
    branch: &mut Option<Vec<char>>,
)
    ensures
        (WorktreeScan {
            done: worktree_views(final(out)@),
            path: opt_view(*final(path)),
            branch: opt_view(*final(branch)),
        }) == close_worktree(
            WorktreeScan {
                done: worktree_views(old(out)@),
                path: opt_view(*old(path)),
                branch: opt_view(*old(branch)),
            },
        ),
{
    if let Some(p) = path {
        let w = GitWorktree {
            path: string_of(p),
            branch: match branch {
                Some(b) => Some(string_of(b)),
                None => None,
            },
            is_current: false,
        };
        let ghost before = worktree_views(out@);
        let ghost wv = w@;
        out.push(w);
        *path = None;
        *branch = None;
        proof {
            assert(worktree_views(out@) =~= before.push(wv));
        }
    }
}

/// Parse `git worktree list --porcelain` output: one worktree per
/// `worktree <path>` record, with the branch of its `branch refs/heads/`
/// line if it has one.
pub fn parse_worktree_porcelain(output: &str) -> (r: Vec<GitWorktree>)
    ensures
        worktree_views(r@) == close_worktree(worktree_scan(lines(output@))).done,
{
    let ls = lines_of(&chars_of(output));
    let ghost lsv = views(ls@);
    let wt = chars_of("worktree ");
    let br = chars_of("branch refs/heads/");
    let mut out: Vec<GitWorktree> = Vec::new();
    let mut path: Option<Vec<char>> = None;
    let mut branch: Option<Vec<char>> = None;
    let mut i: usize = 0;
    proof {
        assert(worktree_views(out@) =~= Seq::<GitWorktreeV>::empty());
    }
    while i < ls.len()
        invariant
            i <= ls@.len(),
            lsv == views(ls@),
            wt@ == "worktree "@,
            br@ == "branch refs/heads/"@,
            (WorktreeScan {
                done: worktree_views(out@),
                path: opt_view(path),
                branch: opt_view(branch),
            }) == worktree_scan(lsv.take(i as int)),
        decreases ls.len() - i,
    {
        proof {
            assert(lsv.take(i + 1).drop_last() =~= lsv.take(i as int));
        }
        let line = &ls[i];
        if let Some(p) = strip_prefix_chars(line, &wt) {
            close_worktree_exec(&mut out, &mut path, &mut branch);
            path = Some(p);
            branch = None;
        } else if let Some(b) = strip_prefix_chars(line, &br) {
            branch = Some(b);
        } else if line.len() == 0 {
            close_worktree_exec(&mut out, &mut path, &mut branch);
        }
        i = i + 1;
    }
    proof {
        assert(lsv.take(i as int) =~= lsv);
    }
    close_worktree_exec(&mut out, &mut path, &mut branch);
    out
}

// ---------------------------------------------------------------------
// git diff --stat
// ---------------------------------------------------------------------

/// `str::parse::<u32>`.
pub open spec fn parse_u32(s: Seq<char>) -> Option<u32> {
    match parse_uint(s, u32::MAX as nat) {
        Some(v) => Some(v as u32),
        None => None,
    }
}

pub fn parse_u32_chars(s: &[char]) -> (r: Option<u32>)
    ensures
        r == parse_u32(s@),
{
    match parse_uint_chars(s, 0xffff_ffff) {
        Some(v) => Some(v as u32),
        None => None,
    }
}

/// The first whitespace-separated word of a trimmed text (`split_whitespace().next()`).
pub open spec fn first_word(t: Seq<char>) -> Seq<char> {
    if exists|i: int| 0 <= i < t.len() && is_ws(#[trigger] t[i]) {
        t.take(choose|i: int| 0 <= i < t.len() && is_ws(t[i]) && forall|j: int| 0 <= j < i ==> !is_ws(#[trigger] t[j]))
    } else {
        t
    }
}

/// One comma-separated part of the summary line, applied to the totals.
pub open spec fn diff_stat_part(st: DiffStat, part: Seq<char>) -> DiffStat {
    let p = trim(part);
    let n = match parse_u32(first_word(p)) {
        Some(v) => v,
        None => 0,
    };
    if contains_str(p, "insertion"@) {
        DiffStat { additions: n, ..st }
    } else if contains_str(p, "deletion"@) {
        DiffStat { deletions: n, ..st }
    } else {
        st
    }
}

/// The pieces of `s` between commas (`str::split(',')`).
pub open spec fn comma_parts(s: Seq<char>) -> Seq<Seq<char>> {
    split_on(s, ',')
}

pub open spec fn diff_stat_of_parts(parts: Seq<Seq<char>>) -> DiffStat
    decreases parts.len(),
{
    if parts.len() == 0 {
        DiffStat { additions: 0, deletions: 0 }
    } else {
        diff_stat_part(diff_stat_of_parts(parts.drop_last()), parts.last())
    }
}

/// The totals of `git diff --stat`, read from its last line
/// (` N files changed, N insertions(+), N deletions(-)`); a count that does
/// not parse is 0.
pub open spec fn diff_stat_of(output: Seq<char>) -> DiffStat {
    let ls = lines(output);
    if ls.len() == 0 {
        DiffStat { additions: 0, deletions: 0 }
    } else {
        diff_stat_of_parts(comma_parts(ls.last()))
    }
}

fn first_word_chars(t: &[char]) -> (r: Vec<char>)
    ensures
        r@ == first_word(t@),
{
    let mut i: usize = 0;
    while i < t.len() && !is_whitespace(t[i])
        invariant
            i <= t@.len(),
            forall|j: int| 0 <= j < i ==> !is_ws(#[trigger] t@[j]),
        decreases t.len() - i,
    {
        i = i + 1;
    }
    proof {
        if i < t@.len() {
            let w = choose|k: int| 0 <= k < t@.len() && is_ws(t@[k]) && forall|j: int| 0 <= j < k ==> !is_ws(#[trigger] t@[j]);
            assert(is_ws(t@[i as int]));
            if w < i {
                assert(!is_ws(t@[w]));
            } else if w > i {
                assert(!is_ws(t@[i as int]));
            }
        } else {
            assert(t@.take(i as int) =~= t@);
        }
    }
    slice_to_vec(t, 0, i)
}

/// Parse `git diff --stat` output: total insertions and deletions of its summary line.
pub fn parse_diff_stat(output: &str) -> (r: DiffStat)
    ensures
        r == diff_stat_of(output@),
{
    let ls = lines_of(&chars_of(output));
    let mut stat = DiffStat { additions: 0, deletions: 0 };
    if ls.len() == 0 {
        return stat;
    }
    let last = &ls[ls.len() - 1];
    let parts = comma_parts_of(last);
    let ghost pv = views(parts@);
    let ins = chars_of("insertion");
    let del = chars_of("deletion");
    let mut i: usize = 0;
    while i < parts.len()
        invariant
            i <= parts@.len(),
            pv == views(parts@),
            ins@ == "insertion"@,
            del@ == "deletion"@,
            stat == diff_stat_of_parts(pv.take(i as int)),
        decreases parts.len() - i,
    {
        proof {
            assert(pv.take(i + 1).drop_last() =~= pv.take(i as int));
        }
        let p = trimmed(&parts[i]);
        let w = first_word_chars(&p);
        let n: u32 = match parse_u32_chars(&w) {
            Some(v) => v,
            None => 0,
        };
        if contains_chars(&p, &ins) {
            stat.additions = n;
        } else if contains_chars(&p, &del) {
            stat.deletions = n;
        }
        i = i + 1;
    }
    proof {
        assert(pv.take(i as int) =~= pv);
        assert(views(ls@).last() == last@);
    }
    stat
}

/// `str::split(',')` on a character vector.
fn comma_parts_of(v: &[char]) -> (r: Vec<Vec<char>>)
    ensures
        views(r@) == comma_parts(v@),
{
    let mut done: Vec<Vec<char>> = Vec::new();
    let mut cur: Vec<char> = Vec::new();
    let mut i: usize = 0;
    proof {
        assert(v@.take(0) =~= Seq::<char>::empty());
        assert(views(done@) =~= Seq::<Seq<char>>::empty());
    }
    while i < v.len()
        invariant
            i <= v@.len(),
            views(done@).push(cur@) == split_on(v@.take(i as int), ','),
        decreases v.len() - i,
    {
        let ghost prev = v@.take(i as int);
        proof {
            assert(v@.take(i + 1).drop_last() =~= prev);
            lemma_split_on_nonempty(prev, ',');
        }
        if v[i] == ',' {
            let ghost before = views(done@);
            let ghost cv = cur@;
            done.push(cur);
            cur = Vec::new();
            proof {
                assert(views(done@) =~= before.push(cv));
                assert(views(done@).push(cur@) =~= before.push(cv).push(Seq::<char>::empty()));
            }
        } else {
            let ghost before = views(done@);
            let ghost old_cur = cur@;
            cur.push(v[i]);
            proof {
                let p = split_on(prev, ',');
                assert(cur@.drop_last() =~= old_cur);
                assert(p == before.push(old_cur));
                assert(views(done@).push(cur@) =~= p.update(p.len() - 1, p.last().push(v@[i as int])));
            }
        }
        i = i + 1;
    }
    proof {
        assert(v@.take(i as int) =~= v@);
    }
    let ghost before = views(done@);
    let ghost cv = cur@;
    done.push(cur);
    proof {
        assert(views(done@) =~= before.push(cv));
    }
    done
}

// ---------------------------------------------------------------------
// One poll
// ---------------------------------------------------------------------

/// Seconds between two polls.
pub const POLL_INTERVAL_SECS: u64 = 2;

/// Seconds a git command may run before it is given up.
pub const GIT_TIMEOUT_SECS: u64 = 5;

/// A git command that the poll cannot do without failed.
#[derive(Debug, Clone, PartialEq, Eq)]
pub struct GitCommandError {
    pub command: String,
    pub stderr: String,
}

/// What a finished git command yields: its standard output without escape
/// sequences when it succeeded, else its trimmed standard error without them.
pub fn git_output(success: bool, stdout: &str, stderr: &str) -> (r: Result<String, String>)
    ensures
        match r {
            Ok(o) => success && o@ == strip_ansi_spec(stdout@),
            Err(e) => !success && e@ == strip_ansi_spec(trim(stderr@)),
        },
{
    if success {
        Ok(strip_ansi(stdout))
    } else {
        let t = trimmed(&chars_of(stderr));
        Err(string_of(&strip_ansi_chars(&t)))
    }
}

/// The snapshot that one poll's outputs describe.
pub open spec fn snapshot_of(
    branch: Seq<char>,
    head: Seq<char>,
    status_out: Seq<char>,
    log_out: Seq<char>,
    worktree_out: Seq<char>,
    diff_out: Seq<char>,
) -> GitSnapshotV {
    GitSnapshotV {
        branch: strip_ansi_spec(trim(branch)),
        head: strip_ansi_spec(trim(head)),
        changes: status_changes(lines(status_out)),
        commits: collect_some(lines(log_out), commit_line_fn()),
        worktrees: close_worktree(worktree_scan(lines(worktree_out))).done,
        diff_stat: diff_stat_of(diff_out),
    }
}

/// One poll's result. Without a branch or a head the directory is no
/// repository and the poll fails, naming the command; the other commands
/// only contribute what they printed (empty where they failed).
pub fn snapshot_from_outputs(
    branch: Result<String, String>,
    head: Result<String, String>,
    status_out: &str,
    log_out: &str,
    worktree_out: &str,
    diff_out: &str,
) -> (r: Result<GitSnapshot, GitCommandError>)
    ensures
        match r {
            Ok(snap) => branch is Ok && head is Ok && snap@ == snapshot_of(
                branch->Ok_0@,
                head->Ok_0@,
                status_out@,
                log_out@,
                worktree_out@,
                diff_out@,
            ),
            Err(e) => match branch {
                Err(b) => e.command@ == "git rev-parse --abbrev-ref HEAD"@ && e.stderr@ == b@,
                Ok(_) => head is Err && e.command@ == "git rev-parse --short HEAD"@
                    && e.stderr@ == head->Err_0@,
            },
        },
{
    let branch = match branch {
        Ok(b) => b,
        Err(e) => {
            return Err(
                GitCommandError { command: "git rev-parse --abbrev-ref HEAD".to_string(), stderr: e },
            );
        },
    };
    let head = match head {
        Ok(h) => h,
        Err(e) => {
            return Err(
                GitCommandError { command: "git rev-parse --short HEAD".to_string(), stderr: e },
            );
        },
    };
    let b = string_of(&strip_ansi_chars(&trimmed(&chars_of(branch.as_str()))));
    let h = string_of(&strip_ansi_chars(&trimmed(&chars_of(head.as_str()))));
    Ok(
        GitSnapshot {
            branch: b,
            head: h,
            changes: parse_status_porcelain_v2(status_out),
            commits: parse_log_oneline(log_out),
            worktrees: parse_worktree_porcelain(worktree_out),
            diff_stat: parse_diff_stat(diff_out),
        },
    )
}

// ---------------------------------------------------------------------
// Laws of the diff totals
// ---------------------------------------------------------------------

/// A summary part ` N <word>` (word non-blank at both ends): trimmed, its
/// first word is the count `N`, which parses to `n`.
proof fn lemma_count_part(n: u32, word: Seq<char>)
    requires
        word.len() > 0,
        !is_ws(word[0]),
        !is_ws(word.last()),
    ensures
        trim(" "@ + decimal(n as nat) + " "@ + word) == decimal(n as nat) + " "@ + word,
        first_word(decimal(n as nat) + " "@ + word) == decimal(n as nat),
        parse_u32(decimal(n as nat)) == Some(n),
{
    reveal_strlit(" ");
    lemma_decimal_digits(n as nat);
    let d = decimal(n as nat);
    let t = d + " "@ + word;
    let p = " "@ + t;
    assert(p =~= " "@ + decimal(n as nat) + " "@ + word);
    assert(!is_ws(d[0])) by {
        assert('0' <= d[0] <= '9');
    }
    assert(p[1] == d[0]);
    lemma_ws_prefix_len_unique(p, 1);
    assert(trim_start(p) =~= t);
    assert(t.last() == word.last());
    lemma_ws_suffix_len_unique(t, 0);
    assert(trim(p) =~= t);
    // The first blank of `t` is the one after the digits.
    let k = d.len() as int;
    assert(is_ws(t[k]));
    assert forall|j: int| 0 <= j < k implies !is_ws(#[trigger] t[j]) by {
        assert(t[j] == d[j]);
        assert('0' <= d[j] <= '9');
    }
    let c = choose|i: int| 0 <= i < t.len() && is_ws(t[i]) && forall|j: int| 0 <= j < i ==> !is_ws(#[trigger] t[j]);
    assert(c == k) by {
        if c < k {
            assert(!is_ws(t[c]));
        } else if c > k {
            assert(!is_ws(t[k]));
        }
    }
    assert(t.take(k) =~= d);
    assert(d[0] != '+') by {
        assert('0' <= d[0] <= '9');
    }
    assert(digits_value(d) <= u32::MAX);
}

/// A text without an `r` never mentions insertions.
proof fn lemma_no_insertion(t: Seq<char>)
    requires
        forall|i: int| 0 <= i < t.len() ==> t[i] != 'r',
    ensures
        !contains_str(t, "insertion"@),
{
    reveal_strlit("insertion");
    if contains_str(t, "insertion"@) {
        let i = choose|i: int| occurs_at(t, "insertion"@, i);
        assert(t.subrange(i, i + 9)[4] == t[i + 4]);
    }
}

/// A `N deletions(-)` part of the summary line sets the deletions to `N`,
/// whatever the insertions read so far, and leaves the insertions alone.
pub proof fn lemma_deletions_part(st: DiffStat, n: u32)
    ensures
        diff_stat_part(st, " "@ + decimal(n as nat) + " deletions(-)"@) == (DiffStat {
            additions: st.additions,
            deletions: n,
        }),
{
    reveal_strlit(" deletions(-)");
    reveal_strlit("deletions(-)");
    reveal_strlit("deletion");
    reveal_strlit(" ");
    let w = "deletions(-)"@;
    assert(" deletions(-)"@ =~= " "@ + w);
    assert(" "@ + decimal(n as nat) + " deletions(-)"@ =~= " "@ + decimal(n as nat) + " "@ + w);
    lemma_count_part(n, w);
    lemma_decimal_digits(n as nat);
    let d = decimal(n as nat);
    let t = d + " "@ + w;
    assert forall|i: int| 0 <= i < t.len() implies t[i] != 'r' by {
        if i < d.len() {
            assert(t[i] == d[i]);
            assert('0' <= d[i] <= '9');
        }
    }
    lemma_no_insertion(t);
    assert(t.subrange(d.len() + 1int, d.len() + 9int) =~= "deletion"@);
    assert(occurs_at(t, "deletion"@, d.len() + 1int));
}

proof fn lemma_insertions_value(st: DiffStat, part: Seq<char>, t: Seq<char>, n: u32)
    requires
        trim(part) == t,
        parse_u32(first_word(t)) == Some(n),
        contains_str(t, "insertion"@),
    ensures
        diff_stat_part(st, part) == (DiffStat { additions: n, deletions: st.deletions }),
{
}

/// `d insertions(+)` mentions insertions, right after `d` and the blank.
proof fn lemma_insertion_occurs(d: Seq<char>)
    ensures
        contains_str(d + " "@ + "insertions(+)"@, "insertion"@),
{
    reveal_strlit("insertions(+)");
    reveal_strlit("insertion");
    reveal_strlit(" ");
    let t = d + " "@ + "insertions(+)"@;
    assert(t.subrange(d.len() + 1int, d.len() + 10int) =~= "insertion"@);
    assert(occurs_at(t, "insertion"@, d.len() + 1int));
}

/// A `N insertions(+)` part of the summary line sets the insertions to
/// `N` and leaves the deletions alone.
pub proof fn lemma_insertions_part(st: DiffStat, n: u32)
    ensures
        diff_stat_part(st, " "@ + decimal(n as nat) + " insertions(+)"@) == (DiffStat {
            additions: n,
            deletions: st.deletions,
        }),
{
    let w = "insertions(+)"@;
    let part = " "@ + decimal(n as nat) + " insertions(+)"@;
    assert(part =~= " "@ + decimal(n as nat) + " "@ + w) by {
        reveal_strlit(" insertions(+)");
        reveal_strlit("insertions(+)");
        reveal_strlit(" ");
        assert(" insertions(+)"@ =~= " "@ + w);
    }
    assert(w.len() > 0 && !is_ws(w[0]) && !is_ws(w.last())) by {
        reveal_strlit("insertions(+)");
    }
    lemma_count_part(n, w);
    let t = decimal(n as nat) + " "@ + w;
    lemma_insertion_occurs(decimal(n as nat));
    lemma_insertions_value(st, part, t, n);
}

/// On a summary line whose last part reads `N deletions(-)`, the
/// deletions are `N` and the insertions are those of the parts before it,
/// whatever they read.
pub proof fn lemma_summary_ends_with_deletions(parts: Seq<Seq<char>>, n: u32)
    ensures
        diff_stat_of_parts(parts.push(" "@ + decimal(n as nat) + " deletions(-)"@)) == (DiffStat {
            additions: diff_stat_of_parts(parts).additions,
            deletions: n,
        }),
{
    let q = parts.push(" "@ + decimal(n as nat) + " deletions(-)"@);
    assert(q.drop_last() =~= parts);
    lemma_deletions_part(diff_stat_of_parts(parts), n);
}

} // verus!
