//! Removal of ANSI escape sequences from text that comes from outside
//! (workflow documents, hook payloads, git output).

use vstd::prelude::*;

use crate::text::{chars_of, string_of};

verus! {

broadcast use vstd::seq_lib::group_seq_properties;

pub open spec fn esc() -> char {
    '\u{1b}'
}

/// Final byte of a CSI sequence (ECMA-48: 0x40..=0x7E).
pub open spec fn is_csi_final(c: char) -> bool {
    '\u{40}' <= c && c <= '\u{7e}'
}

/// What follows a CSI sequence's parameters: everything after the first
/// final byte, or nothing when the sequence is never terminated.
pub open spec fn after_csi(t: Seq<char>) -> Seq<char>
    decreases t.len(),
{
    if t.len() == 0 {
        t
    } else if is_csi_final(t[0]) {
        t.drop_first()
    } else {
        after_csi(t.drop_first())
    }
}

/// What follows an OSC sequence's body: everything after the first BEL, or
/// after the first ESC (together with a `\` right after it), or nothing.
pub open spec fn after_osc(t: Seq<char>) -> Seq<char>
    decreases t.len(),
{
    if t.len() == 0 {
        t
    } else if t[0] == '\u{7}' {
        t.drop_first()
    } else if t[0] == esc() {
        if t.len() > 1 && t[1] == '\\' {
            t.skip(2)
        } else {
            t.drop_first()
        }
    } else {
        after_osc(t.drop_first())
    }
}

pub proof fn lemma_after_csi_len(t: Seq<char>)
    ensures
        after_csi(t).len() <= t.len(),
    decreases t.len(),
{
    if t.len() > 0 && !is_csi_final(t[0]) {
        lemma_after_csi_len(t.drop_first());
    }
}

pub proof fn lemma_after_osc_len(t: Seq<char>)
    ensures
        after_osc(t).len() <= t.len(),
    decreases t.len(),
{
    if t.len() > 0 && t[0] != '\u{7}' && t[0] != esc() {
        lemma_after_osc_len(t.drop_first());
    }
}

/// The text with every escape sequence removed: CSI (`ESC [` .. final byte),
/// OSC (`ESC ]` .. BEL or ST), any other `ESC x` pair, and a trailing ESC.
pub open spec fn strip_ansi_spec(s: Seq<char>) -> Seq<char>
    decreases s.len(),
{
    if s.len() == 0 {
        s
    } else if s[0] != esc() {
        seq![s[0]] + strip_ansi_spec(s.drop_first())
    } else if s.len() == 1 {
        Seq::empty()
    } else if s[1] == '[' {
        proof {
            lemma_after_csi_len(s.skip(2));
        }
        strip_ansi_spec(after_csi(s.skip(2)))
    } else if s[1] == ']' {
        proof {
            lemma_after_osc_len(s.skip(2));
        }
        strip_ansi_spec(after_osc(s.skip(2)))
    } else {
        strip_ansi_spec(s.skip(2))
    }
}

/// Strip ANSI escape sequences from a string.
///
/// Handles CSI sequences (`ESC [` ... final byte), OSC sequences
/// (`ESC ]` ... BEL or `ESC \`), and simple two-character escapes.
pub fn strip_ansi(input: &str) -> (r: String)
    ensures
        r@ == strip_ansi_spec(input@),
{
    let v = chars_of(input);
    let out = strip_ansi_chars(&v);
    string_of(&out)
}

/// Position just after the CSI sequence whose parameters start at `from`.
fn csi_end(v: &[char], from: usize) -> (r: usize)
    requires
        from <= v@.len(),
    ensures
        from <= r <= v@.len(),
        after_csi(v@.skip(from as int)) == v@.skip(r as int),
{
    let n = v.len();
    let mut j = from;
    while j < n && !('\u{40}' <= v[j] && v[j] <= '\u{7e}')
        invariant
            n == v@.len(),
            from <= j <= n,
            after_csi(v@.skip(from as int)) == after_csi(v@.skip(j as int)),
        decreases n - j,
    {
        assert(v@.skip(j as int).drop_first() =~= v@.skip(j + 1));
        j = j + 1;
    }
    if j < n {
        assert(v@.skip(j as int).drop_first() =~= v@.skip(j + 1));
        j + 1
    } else {
        assert(v@.skip(j as int) =~= Seq::<char>::empty());
        j
    }
}

/// Position just after the OSC sequence whose body starts at `from`.
fn osc_end(v: &[char], from: usize) -> (r: usize)
    requires
        from <= v@.len(),
    ensures
        from <= r <= v@.len(),
        after_osc(v@.skip(from as int)) == v@.skip(r as int),
{
    let n = v.len();
    let mut j = from;
    while j < n && v[j] != '\u{7}' && v[j] != '\u{1b}'
        invariant
            n == v@.len(),
            from <= j <= n,
            after_osc(v@.skip(from as int)) == after_osc(v@.skip(j as int)),
        decreases n - j,
    {
        assert(v@.skip(j as int).drop_first() =~= v@.skip(j + 1));
        j = j + 1;
    }
    if j == n {
        assert(v@.skip(j as int) =~= Seq::<char>::empty());
        j
    } else if v[j] == '\u{7}' {
        assert(v@.skip(j as int).drop_first() =~= v@.skip(j + 1));
        j + 1
    } else if j + 1 < n && v[j + 1] == '\\' {
        assert(v@.skip(j as int).skip(2) =~= v@.skip(j + 2));
        j + 2
    } else {
        assert(v@.skip(j as int).drop_first() =~= v@.skip(j + 1));
        j + 1
    }
}

/// `strip_ansi` on a character vector.
pub fn strip_ansi_chars(v: &[char]) -> (r: Vec<char>)
    ensures
        r@ == strip_ansi_spec(v@),
{
    let n = v.len();
    let mut out: Vec<char> = Vec::new();
    let mut i: usize = 0;
    assert(v@.skip(0) =~= v@);
    while i < n
        invariant
            n == v@.len(),
            i <= n,
            strip_ansi_spec(v@) == out@ + strip_ansi_spec(v@.skip(i as int)),
        decreases n - i,
    {
        let ghost rest = v@.skip(i as int);
        let ghost old_out = out@;
        assert(rest[0] == v@[i as int]);
        if v[i] != '\u{1b}' {
            out.push(v[i]);
            assert(rest.drop_first() =~= v@.skip(i + 1));
            assert(old_out + strip_ansi_spec(rest) =~= out@ + strip_ansi_spec(v@.skip(i + 1)));
            i = i + 1;
        } else if i + 1 == n {
            assert(v@.skip(n as int) =~= Seq::<char>::empty());
            assert(out@ + Seq::<char>::empty() =~= out@);
            i = n;
        } else {
            assert(rest[1] == v@[i + 1]);
            assert(rest.skip(2) =~= v@.skip(i + 2));
            if v[i + 1] == '[' {
                i = csi_end(v, i + 2);
            } else if v[i + 1] == ']' {
                i = osc_end(v, i + 2);
            } else {
                i = i + 2;
            }
        }
    }
    assert(v@.skip(i as int) =~= Seq::<char>::empty());
    assert(out@ + Seq::<char>::empty() =~= out@);
    out
}

/// Sanitized text holds no ESC character: every escape introducer is consumed.
pub proof fn lemma_strip_ansi_removes_esc(s: Seq<char>)
    ensures
        !strip_ansi_spec(s).contains(esc()),
    decreases s.len(),
{
    if s.len() == 0 {
    } else if s[0] != esc() {
        lemma_strip_ansi_removes_esc(s.drop_first());
        let r = strip_ansi_spec(s);
        assert forall|k: int| 0 <= k < r.len() implies r[k] != esc() by {
            if k > 0 {
                assert(r[k] == strip_ansi_spec(s.drop_first())[k - 1]);
            }
        }
    } else if s.len() == 1 {
    } else if s[1] == '[' {
        lemma_after_csi_len(s.skip(2));
        lemma_strip_ansi_removes_esc(after_csi(s.skip(2)));
    } else if s[1] == ']' {
        lemma_after_osc_len(s.skip(2));
        lemma_strip_ansi_removes_esc(after_osc(s.skip(2)));
    } else {
        lemma_strip_ansi_removes_esc(s.skip(2));
    }
}

/// Text without ESC characters in front of any text passes through
/// unchanged: only the rest is sanitized.
pub proof fn lemma_strip_ansi_plain_prefix(a: Seq<char>, b: Seq<char>)
    requires
        !a.contains(esc()),
    ensures
        strip_ansi_spec(a + b) == a + strip_ansi_spec(b),
    decreases a.len(),
{
    if a.len() == 0 {
        assert(a + b =~= b);
        assert(a + strip_ansi_spec(b) =~= strip_ansi_spec(b));
    } else {
        let ab = a + b;
        assert(a[0] != esc()) by {
            assert(a.contains(a[0]) ==> a[0] != esc());
        }
        assert(ab[0] == a[0]);
        assert(ab.drop_first() =~= a.drop_first() + b);
        assert(!a.drop_first().contains(esc())) by {
            assert forall|k: int| 0 <= k < a.drop_first().len() implies a.drop_first()[k] != esc() by {
                assert(a.drop_first()[k] == a[k + 1]);
                assert(a.contains(a[k + 1]));
            }
        }
        lemma_strip_ansi_plain_prefix(a.drop_first(), b);
        assert(seq![a[0]] + (a.drop_first() + strip_ansi_spec(b)) =~= a + strip_ansi_spec(b));
    }
}

/// Text without ESC characters passes through unchanged.
pub proof fn lemma_strip_ansi_plain_identity(s: Seq<char>)
    requires
        !s.contains(esc()),
    ensures
        strip_ansi_spec(s) == s,
{
    lemma_strip_ansi_plain_prefix(s, Seq::empty());
    assert(s + Seq::<char>::empty() =~= s);
}

/// `r` is a subsequence of `s`: `r` is `s` with some characters left out,
/// the others kept in order.
pub open spec fn is_subsequence(r: Seq<char>, s: Seq<char>) -> bool
    decreases s.len(),
{
    if s.len() == 0 {
        r.len() == 0
    } else {
        is_subsequence(r, s.drop_first()) || (r.len() > 0 && r[0] == s[0] && is_subsequence(
            r.drop_first(),
            s.drop_first(),
        ))
    }
}

proof fn lemma_subsequence_of_suffix(r: Seq<char>, s: Seq<char>, k: int)
    requires
        0 <= k <= s.len(),
        is_subsequence(r, s.skip(k)),
    ensures
        is_subsequence(r, s),
    decreases k,
{
    if k == 0 {
        assert(s.skip(0) =~= s);
    } else {
        assert(s.drop_first().skip(k - 1) =~= s.skip(k));
        lemma_subsequence_of_suffix(r, s.drop_first(), k - 1);
    }
}

proof fn lemma_subsequence_len(r: Seq<char>, s: Seq<char>)
    requires
        is_subsequence(r, s),
    ensures
        r.len() <= s.len(),
    decreases s.len(),
{
    if s.len() > 0 {
        if is_subsequence(r, s.drop_first()) {
            lemma_subsequence_len(r, s.drop_first());
        } else {
            lemma_subsequence_len(r.drop_first(), s.drop_first());
        }
    }
}

proof fn lemma_after_csi_suffix(t: Seq<char>) -> (k: int)
    ensures
        0 <= k <= t.len(),
        after_csi(t) == t.skip(k),
    decreases t.len(),
{
    if t.len() == 0 {
        assert(t.skip(0) =~= t);
        0
    } else if is_csi_final(t[0]) {
        assert(t.drop_first() =~= t.skip(1));
        1
    } else {
        let j = lemma_after_csi_suffix(t.drop_first());
        assert(t.drop_first().skip(j) =~= t.skip(j + 1));
        j + 1
    }
}

proof fn lemma_after_osc_suffix(t: Seq<char>) -> (k: int)
    ensures
        0 <= k <= t.len(),
        after_osc(t) == t.skip(k),
    decreases t.len(),
{
    if t.len() == 0 {
        assert(t.skip(0) =~= t);
        0
    } else if t[0] == '\u{7}' {
        assert(t.drop_first() =~= t.skip(1));
        1
    } else if t[0] == esc() {
        if t.len() > 1 && t[1] == '\\' {
            2
        } else {
            assert(t.drop_first() =~= t.skip(1));
            1
        }
    } else {
        let j = lemma_after_osc_suffix(t.drop_first());
        assert(t.drop_first().skip(j) =~= t.skip(j + 1));
        j + 1
    }
}

/// Sanitizing only leaves characters out: the result is a subsequence of
/// the input, so never longer than it.
pub proof fn lemma_strip_ansi_subsequence(s: Seq<char>)
    ensures
        is_subsequence(strip_ansi_spec(s), s),
        strip_ansi_spec(s).len() <= s.len(),
    decreases s.len(),
{
    let r = strip_ansi_spec(s);
    if s.len() == 0 {
    } else if s[0] != esc() {
        lemma_strip_ansi_subsequence(s.drop_first());
        assert(r.drop_first() =~= strip_ansi_spec(s.drop_first()));
    } else if s.len() == 1 {
        assert(s.skip(1) =~= Seq::<char>::empty());
        lemma_subsequence_of_suffix(r, s, 1);
    } else {
        let t = s.skip(2);
        let k: int = if s[1] == '[' {
            lemma_after_csi_suffix(t)
        } else if s[1] == ']' {
            lemma_after_osc_suffix(t)
        } else {
            assert(t.skip(0) =~= t);
            0
        };
        let u = t.skip(k);
        assert(r == strip_ansi_spec(u));
        lemma_strip_ansi_subsequence(u);
        assert(t.skip(k) =~= s.skip(2 + k));
        lemma_subsequence_of_suffix(r, s, 2 + k);
    }
    lemma_subsequence_len(r, s);
}

/// Sanitizing is idempotent: sanitizing sanitized text changes nothing.
pub proof fn lemma_strip_ansi_idempotent(s: Seq<char>)
    ensures
        strip_ansi_spec(strip_ansi_spec(s)) == strip_ansi_spec(s),
{
    lemma_strip_ansi_removes_esc(s);
    lemma_strip_ansi_plain_identity(strip_ansi_spec(s));
}

} // verus!
