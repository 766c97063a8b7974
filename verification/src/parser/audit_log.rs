//! Parser for the audit log, in either of its two formats:
//! - brief: `[timestamp] stage — choice` (or `→` in place of `—`);
//! - detailed: a `## stage` header followed by `**Timestamp**:` and
//!   `**User Input**:` metadata lines.
//!
//! Lines that are neither are kept as raw entries.

use vstd::prelude::*;

use crate::parser::models::{audit_views, AuditEntry, AuditEntryV};
use crate::service::sanitizer::{
    esc, lemma_strip_ansi_idempotent, lemma_strip_ansi_removes_esc, strip_ansi_chars, strip_ansi_spec,
};
use crate::text::{
    chars_of, lemma_find_char, lemma_ws_prefix_len, lemma_ws_suffix_len, lines, lines_of, opt_view,
    split_on, split_once, split_once_chars, starts_with, starts_with_chars, string_of, strip_cr,
    strip_prefix, strip_prefix_chars, trim, trim_start, trimmed, views, find_char, ws_prefix_len,
    ws_suffix_len,
};

verus! {

broadcast use vstd::seq_lib::group_seq_properties;

/// The detailed entry being read, if any, and the entries so far.
pub ghost struct AuditScan {
    pub entries: Seq<AuditEntryV>,
    pub stage: Option<Seq<char>>,
    pub timestamp: Option<Seq<char>>,
    pub choice: Option<Seq<char>>,
}

/// The entries once the open detailed entry, if any, has been closed.
pub open spec fn flushed_entries(a: AuditScan) -> Seq<AuditEntryV> {
    match a.stage {
        Some(s) => a.entries.push(
            AuditEntryV {
                timestamp: a.timestamp,
                stage: Some(s),
                choice: a.choice,
                raw_line: Seq::empty(),
            },
        ),
        None => a.entries,
    }
}

/// `[timestamp] stage — choice`, `[timestamp] stage → choice` or `[timestamp] stage`.
pub open spec fn brief_entry(t: Seq<char>) -> Option<AuditEntryV> {
    match strip_prefix(t, "["@) {
        None => None,
        Some(rest) => match split_once(rest, ']') {
            None => None,
            Some((ts, rest2)) => {
                let r = trim(rest2);
                let (stage, choice) = match split_once(r, '—') {
                    Some((s, c)) => (Some(trim(s)), Some(trim(c))),
                    None => match split_once(r, '→') {
                        Some((s, c)) => (Some(trim(s)), Some(trim(c))),
                        None => (Some(r), None),
                    },
                };
                Some(
                    AuditEntryV { timestamp: Some(trim(ts)), stage: stage, choice: choice, raw_line: t },
                )
            },
        },
    }
}

/// The entry a line outside any detailed block gives.
pub open spec fn line_entry(t: Seq<char>) -> AuditEntryV {
    match brief_entry(t) {
        Some(e) => e,
        None => AuditEntryV { timestamp: None, stage: None, choice: None, raw_line: t },
    }
}

pub open spec fn closed(entries: Seq<AuditEntryV>) -> AuditScan {
    AuditScan { entries: entries, stage: None, timestamp: None, choice: None }
}

pub open spec fn audit_step(a: AuditScan, line: Seq<char>) -> AuditScan {
    let t = trim(line);
    if t.len() == 0 {
        a
    } else if let Some(st) = strip_prefix(t, "## "@) {
        AuditScan { stage: Some(trim(st)), ..closed(flushed_entries(a)) }
    } else if a.stage is Some && strip_prefix(t, "**Timestamp**:"@) is Some {
        AuditScan { timestamp: Some(trim(strip_prefix(t, "**Timestamp**:"@)->0)), ..a }
    } else if a.stage is Some && strip_prefix(t, "**User Input**:"@) is Some {
        AuditScan { choice: Some(trim(strip_prefix(t, "**User Input**:"@)->0)), ..a }
    } else if a.stage is Some && starts_with(t, "**"@) {
        a
    } else {
        closed(flushed_entries(a).push(line_entry(t)))
    }
}

pub open spec fn audit_scan(ls: Seq<Seq<char>>) -> AuditScan
    decreases ls.len(),
{
    if ls.len() == 0 {
        closed(Seq::empty())
    } else {
        audit_step(audit_scan(ls.drop_last()), ls.last())
    }
}

/// What `parse` returns for an audit log.
pub open spec fn parse_audit(content: Seq<char>) -> Seq<AuditEntryV> {
    flushed_entries(audit_scan(lines(strip_ansi_spec(content))))
}

/// Parse an audit log into its entries, in order.
pub fn parse(content: &str) -> (r: Vec<AuditEntry>)
    ensures
        audit_views(r@) == parse_audit(content@),
{
    let raw = chars_of(content);
    let clean = strip_ansi_chars(&raw);
    let ls = lines_of(&clean);
    let ghost lsv = views(ls@);
    let hh = chars_of("## ");
    let ts_key = chars_of("**Timestamp**:");
    let ui_key = chars_of("**User Input**:");
    let stars = chars_of("**");
    let mut entries: Vec<AuditEntry> = Vec::new();
    let mut stage: Option<Vec<char>> = None;
    let mut timestamp: Option<Vec<char>> = None;
    let mut choice: Option<Vec<char>> = None;
    let mut i: usize = 0;
    proof {
        assert(lsv.take(0) =~= Seq::<Seq<char>>::empty());
        assert(audit_views(entries@) =~= Seq::<AuditEntryV>::empty());
    }
    while i < ls.len()
        invariant
            i <= ls@.len(),
            lsv == views(ls@),
            lsv == lines(clean@),
            clean@ == strip_ansi_spec(content@),
            hh@ == "## "@,
            ts_key@ == "**Timestamp**:"@,
            ui_key@ == "**User Input**:"@,
            stars@ == "**"@,
            (AuditScan {
                entries: audit_views(entries@),
                stage: opt_view(stage),
                timestamp: opt_view(timestamp),
                choice: opt_view(choice),
            }) == audit_scan(lsv.take(i as int)),
        decreases ls.len() - i,
    {
        proof {
            assert(lsv.take(i + 1).drop_last() =~= lsv.take(i as int));
        }
        let t = trimmed(&ls[i]);
        if t.len() == 0 {
        } else if let Some(st) = strip_prefix_chars(&t, &hh) {
            flush_detailed(&mut entries, stage, timestamp, choice);
            stage = Some(trimmed(&st));
            timestamp = None;
            choice = None;
        } else {
            let mut handled = false;
            if stage.is_some() {
                if let Some(v) = strip_prefix_chars(&t, &ts_key) {
                    timestamp = Some(trimmed(&v));
                    handled = true;
                } else if let Some(v) = strip_prefix_chars(&t, &ui_key) {
                    choice = Some(trimmed(&v));
                    handled = true;
                } else if starts_with_chars(&t, &stars) {
                    handled = true;
                }
            }
            if !handled {
                flush_detailed(&mut entries, stage, timestamp, choice);
                stage = None;
                timestamp = None;
                choice = None;
                let e = match try_parse_brief(&t) {
                    Some(e) => e,
                    None => AuditEntry {
                        timestamp: None,
                        stage: None,
                        choice: None,
                        raw_line: string_of(&t),
                    },
                };
                let ghost before = audit_views(entries@);
                let ghost ev = e@;
                entries.push(e);
                proof {
                    assert(audit_views(entries@) =~= before.push(ev));
                }
            }
        }
        i = i + 1;
    }
    proof {
        assert(lsv.take(i as int) =~= lsv);
    }
    flush_detailed(&mut entries, stage, timestamp, choice);
    entries
}

/// Close the open detailed entry, if there is one, by appending it.
fn flush_detailed(
    entries: &mut Vec<AuditEntry>,
    stage: Option<Vec<char>>,
    timestamp: Option<Vec<char>>,
    choice: Option<Vec<char>>,
)
    ensures
        audit_views(final(entries)@) == flushed_entries(
            AuditScan {
                entries: audit_views(old(entries)@),
                stage: opt_view(stage),
                timestamp: opt_view(timestamp),
                choice: opt_view(choice),
            },
        ),
{
    if let Some(s) = stage {
        let e = AuditEntry {
            timestamp: match timestamp {
                Some(t) => Some(string_of(&t)),
                None => None,
            },
            stage: Some(string_of(&s)),
            choice: match choice {
                Some(c) => Some(string_of(&c)),
                None => None,
            },
            raw_line: String::new(),
        };
        let ghost before = audit_views(entries@);
        let ghost ev = e@;
        entries.push(e);
        proof {
            assert(audit_views(entries@) =~= before.push(ev));
        }
    }
}

/// A brief entry: `[timestamp] stage — choice` (or `→`), or `[timestamp] stage`.
fn try_parse_brief(line: &[char]) -> (r: Option<AuditEntry>)
    ensures
        match r {
            Some(e) => brief_entry(line@) == Some(e@),
            None => brief_entry(line@) is None,
        },
{
    let rest = strip_prefix_chars(line, &chars_of("["))?;
    let (ts, rest2) = split_once_chars(&rest, ']')?;
    let r = trimmed(&rest2);
    let (stage, choice) = match split_once_chars(&r, '—') {
        Some((s, c)) => (Some(string_of(&trimmed(&s))), Some(string_of(&trimmed(&c)))),
        None => match split_once_chars(&r, '→') {
            Some((s, c)) => (Some(string_of(&trimmed(&s))), Some(string_of(&trimmed(&c)))),
            None => (Some(string_of(&r)), None),
        },
    };
    Some(
        AuditEntry {
            timestamp: Some(string_of(&trimmed(&ts))),
            stage,
            choice,
            raw_line: string_of(line),
        },
    )
}

// ---------------------------------------------------------------------
// What every parsed entry is made of
// ---------------------------------------------------------------------

/// The text holds no ESC character.
pub open spec fn esc_free(x: Seq<char>) -> bool {
    !x.contains(esc())
}

pub open spec fn opt_esc_free(o: Option<Seq<char>>) -> bool {
    match o {
        Some(x) => esc_free(x),
        None => true,
    }
}

/// No field of the entry holds an ESC character.
pub open spec fn entry_esc_free(e: AuditEntryV) -> bool {
    opt_esc_free(e.timestamp) && opt_esc_free(e.stage) && opt_esc_free(e.choice) && esc_free(e.raw_line)
}

/// The entry is a detailed one (a stage and no raw line), or its raw line
/// is one of the lines, trimmed and not blank.
pub open spec fn entry_from_lines(e: AuditEntryV, ls: Seq<Seq<char>>) -> bool {
    ||| (e.stage is Some && e.raw_line.len() == 0)
    ||| (e.raw_line.len() > 0 && exists|k: int| 0 <= k < ls.len() && e.raw_line == trim(#[trigger] ls[k]))
}

/// An entry without a stage is a line kept as it was: no timestamp, no choice.
pub open spec fn raw_entry_bare(e: AuditEntryV) -> bool {
    e.stage is None ==> e.timestamp is None && e.choice is None
}

pub open spec fn entry_ok(e: AuditEntryV, ls: Seq<Seq<char>>) -> bool {
    entry_esc_free(e) && entry_from_lines(e, ls) && raw_entry_bare(e)
}

proof fn lemma_free_sub(x: Seq<char>, i: int, j: int)
    requires
        0 <= i <= j <= x.len(),
        esc_free(x),
    ensures
        esc_free(x.subrange(i, j)),
{
    assert forall|k: int| 0 <= k < j - i implies x.subrange(i, j)[k] != esc() by {
        assert(x.subrange(i, j)[k] == x[i + k]);
    }
}

proof fn lemma_free_trim(x: Seq<char>)
    requires
        esc_free(x),
    ensures
        esc_free(trim(x)),
{
    lemma_ws_prefix_len(x);
    let y = trim_start(x);
    lemma_free_sub(x, ws_prefix_len(x) as int, x.len() as int);
    assert(y == x.subrange(ws_prefix_len(x) as int, x.len() as int));
    lemma_ws_suffix_len(y);
    lemma_free_sub(y, 0, y.len() - ws_suffix_len(y));
}

proof fn lemma_free_prefix(t: Seq<char>, p: Seq<char>)
    requires
        esc_free(t),
    ensures
        match strip_prefix(t, p) {
            Some(r) => esc_free(r),
            None => true,
        },
{
    if starts_with(t, p) {
        lemma_free_sub(t, p.len() as int, t.len() as int);
    }
}

proof fn lemma_free_split_once(s: Seq<char>, c: char)
    requires
        esc_free(s),
    ensures
        match split_once(s, c) {
            Some((a, b)) => esc_free(a) && esc_free(b),
            None => true,
        },
{
    lemma_find_char(s, c);
    if let Some(i) = find_char(s, c) {
        lemma_free_sub(s, 0, i);
        lemma_free_sub(s, i + 1, s.len() as int);
    }
}

proof fn lemma_free_split_on(s: Seq<char>, c: char)
    requires
        esc_free(s),
    ensures
        split_on(s, c).len() >= 1,
        forall|k: int| 0 <= k < split_on(s, c).len() ==> esc_free(#[trigger] split_on(s, c)[k]),
    decreases s.len(),
{
    if s.len() > 0 {
        lemma_free_sub(s, 0, s.len() - 1);
        lemma_free_split_on(s.drop_last(), c);
        let p = split_on(s.drop_last(), c);
        assert(s.last() == s[s.len() - 1]);
        if s.last() != c {
            let l = p.last().push(s.last());
            assert(esc_free(p[p.len() - 1]));
            assert forall|k: int| 0 <= k < l.len() implies l[k] != esc() by {
                if k < l.len() - 1 {
                    assert(l[k] == p[p.len() - 1][k]);
                }
            }
        }
    }
}

proof fn lemma_free_lines(s: Seq<char>)
    requires
        esc_free(s),
    ensures
        forall|k: int| 0 <= k < lines(s).len() ==> esc_free(#[trigger] lines(s)[k]),
{
    lemma_free_split_on(s, '\n');
    let p = split_on(s, '\n');
    let ls = lines(s);
    assert forall|k: int| 0 <= k < ls.len() implies esc_free(#[trigger] ls[k]) by {
        assert(esc_free(p[k]));
        if k < p.len() - 1 {
            assert(ls[k] == strip_cr(p[k]));
            if p[k].len() > 0 {
                lemma_free_sub(p[k], 0, p[k].len() - 1);
            }
        }
    }
}

proof fn lemma_line_entry_ok(line: Seq<char>, ls: Seq<Seq<char>>, k: int)
    requires
        0 <= k < ls.len(),
        ls[k] == line,
        esc_free(line),
        trim(line).len() > 0,
    ensures
        entry_ok(line_entry(trim(line)), ls),
{
    let t = trim(line);
    lemma_free_trim(line);
    lemma_free_prefix(t, "["@);
    if let Some(rest) = strip_prefix(t, "["@) {
        lemma_free_split_once(rest, ']');
        if let Some((ts, rest2)) = split_once(rest, ']') {
            lemma_free_trim(ts);
            lemma_free_trim(rest2);
            let r = trim(rest2);
            lemma_free_split_once(r, '—');
            lemma_free_split_once(r, '→');
            match split_once(r, '—') {
                Some((a, b)) => {
                    lemma_free_trim(a);
                    lemma_free_trim(b);
                },
                None => match split_once(r, '→') {
                    Some((a, b)) => {
                        lemma_free_trim(a);
                        lemma_free_trim(b);
                    },
                    None => {},
                },
            }
        }
    }
    assert(line_entry(t).raw_line == trim(ls[k]));
}

proof fn lemma_scan_ok(ls: Seq<Seq<char>>, all: Seq<Seq<char>>)
    requires
        ls.len() <= all.len(),
        forall|k: int| 0 <= k < ls.len() ==> ls[k] == all[k],
        forall|k: int| 0 <= k < all.len() ==> esc_free(#[trigger] all[k]),
    ensures
        forall|k: int|
            0 <= k < audit_scan(ls).entries.len() ==> entry_ok(#[trigger] audit_scan(ls).entries[k], all),
        opt_esc_free(audit_scan(ls).stage),
        opt_esc_free(audit_scan(ls).timestamp),
        opt_esc_free(audit_scan(ls).choice),
        forall|k: int|
            0 <= k < flushed_entries(audit_scan(ls)).len() ==> entry_ok(
                #[trigger] flushed_entries(audit_scan(ls))[k],
                all,
            ),
    decreases ls.len(),
{
    if ls.len() > 0 {
        let prev = ls.drop_last();
        lemma_scan_ok(prev, all);
        let a = audit_scan(prev);
        let line = ls.last();
        let j = ls.len() - 1;
        assert(line == all[j]);
        let t = trim(line);
        lemma_free_trim(line);
        let f = flushed_entries(a);
        if t.len() == 0 {
        } else if let Some(st) = strip_prefix(t, "## "@) {
            lemma_free_prefix(t, "## "@);
            lemma_free_trim(st);
        } else if a.stage is Some && strip_prefix(t, "**Timestamp**:"@) is Some {
            lemma_free_prefix(t, "**Timestamp**:"@);
            lemma_free_trim(strip_prefix(t, "**Timestamp**:"@)->0);
        } else if a.stage is Some && strip_prefix(t, "**User Input**:"@) is Some {
            lemma_free_prefix(t, "**User Input**:"@);
            lemma_free_trim(strip_prefix(t, "**User Input**:"@)->0);
        } else if a.stage is Some && starts_with(t, "**"@) {
        } else {
            lemma_line_entry_ok(line, all, j);
            let n = f.push(line_entry(t));
            assert forall|k: int| 0 <= k < n.len() implies entry_ok(#[trigger] n[k], all) by {
                if k < f.len() {
                    assert(n[k] == f[k]);
                }
            }
        }
    }
}

/// What every parsed entry is made of: parsing sanitizes first, so a log
/// and its sanitized text give the same entries; no field holds an ESC
/// character; each entry is a detailed one (a stage, no raw line) or keeps
/// a trimmed, non-blank line of the sanitized log as its raw line; and an
/// entry without a stage has no timestamp and no choice either.
pub proof fn lemma_audit_entries(content: Seq<char>)
    ensures
        parse_audit(content) == parse_audit(strip_ansi_spec(content)),
        forall|k: int|
            0 <= k < parse_audit(content).len() ==> entry_ok(
                #[trigger] parse_audit(content)[k],
                lines(strip_ansi_spec(content)),
            ),
{
    lemma_strip_ansi_idempotent(content);
    let clean = strip_ansi_spec(content);
    lemma_strip_ansi_removes_esc(content);
    lemma_free_lines(clean);
    lemma_scan_ok(lines(clean), lines(clean));
}

} // verus!
