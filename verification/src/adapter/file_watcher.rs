//! What the docs watcher decides about the files it finds: which audit
//! file to read, which files are markdown artifacts, and the order in
//! which artifacts are listed.

use vstd::prelude::*;

use crate::parser::models::{artifact_views, ArtifactFile, ArtifactFileV};
use crate::text::{chars_of, eq_chars, lemma_rfind_char, rfind_char_in, rsplit_once, slice_to_vec};

verus! {

broadcast use vstd::seq_lib::group_seq_properties;

/// Quiet period after the last file event before the docs are parsed again.
pub const DEBOUNCE_MS: u64 = 300;

// ---------------------------------------------------------------------
// File names
// ---------------------------------------------------------------------

/// `Path::extension` of a file name: the text after the last `.`, unless
/// there is no `.`, the only `.` starts the name, or the name is `..`.
pub open spec fn extension(name: Seq<char>) -> Option<Seq<char>> {
    if name == seq!['.', '.'] {
        None
    } else {
        match rsplit_once(name, '.') {
            Some((before, after)) => if before.len() == 0 {
                None
            } else {
                Some(after)
            },
            None => None,
        }
    }
}

/// Whether the file name's extension is exactly `ext`.
pub fn has_extension(file_name: &str, ext: &str) -> (r: bool)
    ensures
        r == (extension(file_name@) == Some(ext@)),
{
    let v = chars_of(file_name);
    let e = chars_of(ext);
    if v.len() == 2 && v[0] == '.' && v[1] == '.' {
        assert(v@ =~= seq!['.', '.']);
        return false;
    }
    proof {
        lemma_rfind_char(v@, '.');
    }
    match rfind_char_in(&v, '.') {
        None => false,
        Some(i) => {
            if i == 0 {
                false
            } else {
                let tail = slice_to_vec(&v, i + 1, v.len());
                assert(tail@ =~= v@.skip(i + 1));
                eq_chars(&tail, &e)
            }
        },
    }
}

/// The audit log's file name: `audit.md` where it exists, else
/// `devflow-audit.md` where that exists.
pub fn audit_file_name(audit_present: bool, devflow_audit_present: bool) -> (r: Option<&'static str>)
    ensures
        match r {
            Some(n) => (audit_present && n@ == "audit.md"@) || (!audit_present
                && devflow_audit_present && n@ == "devflow-audit.md"@),
            None => !audit_present && !devflow_audit_present,
        },
{
    if audit_present {
        Some("audit.md")
    } else if devflow_audit_present {
        Some("devflow-audit.md")
    } else {
        None
    }
}

/// A directory entry as an artifact: only markdown files are listed.
pub fn artifact_entry(path: String, file_name: String) -> (r: Option<ArtifactFile>)
    ensures
        match r {
            Some(a) => extension(file_name@) == Some("md"@) && a@ == (ArtifactFileV {
                path: path@,
                name: file_name@,
            }),
            None => extension(file_name@) != Some("md"@),
        },
{
    if has_extension(file_name.as_str(), "md") {
        Some(ArtifactFile { path, name: file_name })
    } else {
        None
    }
}

// ---------------------------------------------------------------------
// Ordering by path
// ---------------------------------------------------------------------

/// Lexicographic order on character sequences (the order of `str::cmp`).
pub open spec fn lex_le(a: Seq<char>, b: Seq<char>) -> bool
    decreases a.len(),
{
    if a.len() == 0 {
        true
    } else if b.len() == 0 {
        false
    } else if a[0] != b[0] {
        a[0] < b[0]
    } else {
        lex_le(a.drop_first(), b.drop_first())
    }
}

pub proof fn lemma_lex_total(a: Seq<char>, b: Seq<char>)
    ensures
        lex_le(a, b) || lex_le(b, a),
    decreases a.len(),
{
    if a.len() > 0 && b.len() > 0 && a[0] == b[0] {
        lemma_lex_total(a.drop_first(), b.drop_first());
    }
}

pub proof fn lemma_lex_trans(a: Seq<char>, b: Seq<char>, c: Seq<char>)
    requires
        lex_le(a, b),
        lex_le(b, c),
    ensures
        lex_le(a, c),
    decreases a.len(),
{
    if a.len() > 0 && b.len() > 0 && c.len() > 0 && a[0] == b[0] && b[0] == c[0] {
        lemma_lex_trans(a.drop_first(), b.drop_first(), c.drop_first());
    }
}

/// `lex_le` on character vectors.
pub fn lex_le_chars(a: &[char], b: &[char]) -> (r: bool)
    ensures
        r == lex_le(a@, b@),
{
    let mut i: usize = 0;
    while i < a.len() && i < b.len()
        invariant
            i <= a@.len(),
            i <= b@.len(),
            lex_le(a@, b@) == lex_le(a@.skip(i as int), b@.skip(i as int)),
        decreases a@.len() - i,
    {
        let x = a[i];
        let y = b[i];
        if x != y {
            return x < y;
        }
        assert(a@.skip(i as int).drop_first() =~= a@.skip(i + 1));
        assert(b@.skip(i as int).drop_first() =~= b@.skip(i + 1));
        i = i + 1;
    }
    i == a.len()
}

/// Artifacts in order of their paths, earlier paths first.
pub open spec fn sorted_by_path(s: Seq<ArtifactFileV>) -> bool {
    forall|i: int, j: int| 0 <= i < j < s.len() ==> lex_le(#[trigger] s[i].path, #[trigger] s[j].path)
}

/// Where a path belongs among sorted artifacts: after every entry whose
/// path is not greater.
fn insert_position(out: &Vec<ArtifactFile>, key: &[char]) -> (p: usize)
    ensures
        p <= out@.len(),
        forall|k: int| 0 <= k < p ==> lex_le(#[trigger] artifact_views(out@)[k].path, key@),
        p < out@.len() ==> !lex_le(artifact_views(out@)[p as int].path, key@),
{
    let mut p: usize = 0;
    while p < out.len()
        invariant
            p <= out@.len(),
            forall|k: int| 0 <= k < p ==> lex_le(#[trigger] artifact_views(out@)[k].path, key@),
        ensures
            p <= out@.len(),
            forall|k: int| 0 <= k < p ==> lex_le(#[trigger] artifact_views(out@)[k].path, key@),
            p < out@.len() ==> !lex_le(artifact_views(out@)[p as int].path, key@),
        decreases out@.len() - p,
    {
        let other = chars_of(out[p].path.as_str());
        if !lex_le_chars(&other, key) {
            break;
        }
        p = p + 1;
    }
    p
}

/// Inserting an entry at its position keeps the artifacts sorted.
proof fn lemma_insert_sorted(s: Seq<ArtifactFileV>, p: int, x: ArtifactFileV)
    requires
        sorted_by_path(s),
        0 <= p <= s.len(),
        forall|k: int| 0 <= k < p ==> lex_le(#[trigger] s[k].path, x.path),
        p < s.len() ==> !lex_le(s[p].path, x.path),
    ensures
        sorted_by_path(s.insert(p, x)),
{
    let t = s.insert(p, x);
    if p < s.len() {
        lemma_lex_total(s[p].path, x.path);
    }
    assert forall|k: int| p <= k < s.len() implies lex_le(x.path, #[trigger] s[k].path) by {
        if k > p {
            lemma_lex_trans(x.path, s[p].path, s[k].path);
        }
    }
    assert forall|a: int, b: int| 0 <= a < b < t.len() implies lex_le(
        #[trigger] t[a].path,
        #[trigger] t[b].path,
    ) by {
        if b < p {
            assert(t[a] == s[a] && t[b] == s[b]);
        } else if a < p && b == p {
            assert(t[a] == s[a]);
        } else if a < p && b > p {
            assert(t[a] == s[a] && t[b] == s[b - 1]);
            lemma_lex_trans(s[a].path, x.path, s[b - 1].path);
        } else if a == p {
            assert(t[b] == s[b - 1]);
        } else {
            assert(t[a] == s[a - 1] && t[b] == s[b - 1]);
        }
    }
}

proof fn lemma_take_push(s: Seq<ArtifactFileV>, i: int)
    requires
        0 <= i < s.len(),
    ensures
        s.take(i + 1).to_multiset() == s.take(i).to_multiset().insert(s[i]),
{
    assert(s.take(i + 1) =~= s.take(i).push(s[i]));
    vstd::seq_lib::to_multiset_build(s.take(i), s[i]);
}

proof fn lemma_insert_multiset(s: Seq<ArtifactFileV>, p: int, x: ArtifactFileV)
    requires
        0 <= p <= s.len(),
    ensures
        s.insert(p, x).to_multiset() == s.to_multiset().insert(x),
{
    vstd::seq_lib::to_multiset_insert(s, p, x);
}

/// The artifacts in order of their paths: the same entries, rearranged.
pub fn sort_artifacts(v: Vec<ArtifactFile>) -> (r: Vec<ArtifactFile>)
    ensures
        artifact_views(r@).to_multiset() == artifact_views(v@).to_multiset(),
        sorted_by_path(artifact_views(r@)),
{
    let mut out: Vec<ArtifactFile> = Vec::new();
    let mut i: usize = 0;
    assert(artifact_views(v@).take(0) =~= artifact_views(out@));
    while i < v.len()
        invariant
            i <= v@.len(),
            artifact_views(out@).to_multiset() == artifact_views(v@).take(i as int).to_multiset(),
            sorted_by_path(artifact_views(out@)),
        decreases v@.len() - i,
    {
        let item = v[i].clone();
        let ghost iv = item@;
        let key = chars_of(item.path.as_str());
        let p = insert_position(&out, &key);
        let ghost old_views = artifact_views(out@);
        proof {
            lemma_insert_sorted(old_views, p as int, iv);
        }
        out.insert(p, item);
        proof {
            assert(artifact_views(out@) =~= old_views.insert(p as int, iv));
            lemma_insert_multiset(old_views, p as int, iv);
            lemma_take_push(artifact_views(v@), i as int);
        }
        i = i + 1;
    }
    assert(artifact_views(v@).take(v@.len() as int) =~= artifact_views(v@));
    out
}

} // verus!
