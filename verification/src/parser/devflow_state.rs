//! Parser for `devflow-state.md`: a sequence of `## Section` blocks whose
//! values fill a `FlowState`. Parsing never fails: unknown sections land in
//! `extra_fields`, unreadable values fall back to defaults.

use vstd::prelude::*;

use crate::parser::models::{
    completed_views, approved_views, default_flow_state, phase_parse, complexity_parse,
    skipped_views, ApprovedStage, ApprovedStageV, CompletedStage, CompletedStageV, Complexity,
    FlowState, FlowStateV, Phase, ReasonedStageV, SkippedStage, WorktreeInfo, WorktreeInfoV,
};
use crate::parser::section::{collect_some, section_value, section_value_of};
use crate::service::sanitizer::{strip_ansi_chars, strip_ansi_spec};
use crate::text::{
    chars_of, eq_chars, lines, lines_of, lowercase_chars, opt_str, opt_view, rsplit_once,
    rsplit_once_chars, spec_to_lowercase, split_once, split_once_chars, starts_with,
    starts_with_chars, str_views, string_of, strip_prefix, strip_prefix_chars, trim,
    trim_end_matches, trim_end_matches_chars, trimmed, views, is_ws, ws_prefix_len, ws_suffix_len,
    lemma_ws_suffix_len, lemma_find_char, lemma_trim_drop_ws, find_char, first_at, trim_start,
    lemma_ws_prefix_len_unique, lemma_ws_suffix_len_unique,
};

verus! {

broadcast use vstd::seq_lib::group_seq_properties;

// ---------------------------------------------------------------------
// Section contents
// ---------------------------------------------------------------------

/// `- name (timestamp)` or `- name`.
pub open spec fn completed_item(l: Seq<char>) -> Option<CompletedStageV> {
    match strip_prefix(trim(l), "- "@) {
        None => None,
        Some(t) => match rsplit_once(t, '(') {
            Some((n, ts)) => Some(
                CompletedStageV { name: trim(n), timestamp: Some(trim(trim_end_matches(ts, ')'))) },
            ),
            None => Some(CompletedStageV { name: trim(t), timestamp: None }),
        },
    }
}

/// `- name — <tag>value` or `- name`: the name, and the text after `tag`
/// when the part after the dash starts with it.
pub open spec fn tagged_item(l: Seq<char>, tag: Seq<char>) -> Option<(Seq<char>, Option<Seq<char>>)> {
    match strip_prefix(trim(l), "- "@) {
        None => None,
        Some(t) => match split_once(t, '—') {
            Some((n, d)) => Some(
                (
                    trim(n),
                    match strip_prefix(trim(d), tag) {
                        Some(v) => Some(trim(v)),
                        None => None,
                    },
                ),
            ),
            None => Some((trim(t), None)),
        },
    }
}

pub open spec fn approved_item(l: Seq<char>) -> Option<ApprovedStageV> {
    match tagged_item(l, "depth:"@) {
        Some((n, d)) => Some(ApprovedStageV { name: n, depth: d }),
        None => None,
    }
}

pub open spec fn skipped_item(l: Seq<char>) -> Option<ReasonedStageV> {
    match tagged_item(l, "reason:"@) {
        Some((n, r)) => Some(ReasonedStageV { name: n, reason: r }),
        None => None,
    }
}

pub open spec fn unit_item(l: Seq<char>) -> Option<Seq<char>> {
    match strip_prefix(trim(l), "- "@) {
        Some(s) => Some(trim(s)),
        None => None,
    }
}

pub open spec fn completed_item_fn() -> spec_fn(Seq<char>) -> Option<CompletedStageV> {
    |l: Seq<char>| completed_item(l)
}

pub open spec fn approved_item_fn() -> spec_fn(Seq<char>) -> Option<ApprovedStageV> {
    |l: Seq<char>| approved_item(l)
}

pub open spec fn skipped_item_fn() -> spec_fn(Seq<char>) -> Option<ReasonedStageV> {
    |l: Seq<char>| skipped_item(l)
}

pub open spec fn unit_item_fn() -> spec_fn(Seq<char>) -> Option<Seq<char>> {
    |l: Seq<char>| unit_item(l)
}

/// The worktree after a field with a lower-cased key: `branch` and `path`
/// set their field; other keys change nothing.
pub open spec fn worktree_field(w: WorktreeInfoV, key: Seq<char>, value: Seq<char>) -> WorktreeInfoV {
    if key == "branch"@ {
        WorktreeInfoV { branch: Some(value), path: w.path }
    } else if key == "path"@ {
        WorktreeInfoV { branch: w.branch, path: Some(value) }
    } else {
        w
    }
}

/// One `key: value` line of the `Worktree` section; keys compare case-insensitively.
pub open spec fn worktree_step(w: WorktreeInfoV, l: Seq<char>) -> WorktreeInfoV {
    match split_once(trim(l), ':') {
        Some((k, v)) => worktree_field(w, spec_to_lowercase(trim(k)), trim(v)),
        None => w,
    }
}

/// Record a field of the `Worktree` section whose key is already lower-cased.
pub fn set_worktree_field(info: &mut WorktreeInfo, key: &[char], value: &[char])
    ensures
        final(info)@ == worktree_field(old(info)@, key@, value@),
{
    if eq_chars(key, &chars_of("branch")) {
        info.branch = Some(string_of(value));
    } else if eq_chars(key, &chars_of("path")) {
        info.path = Some(string_of(value));
    }
}

pub open spec fn worktree_of(lines: Seq<Seq<char>>) -> WorktreeInfoV
    decreases lines.len(),
{
    if lines.len() == 0 {
        WorktreeInfoV { branch: None, path: None }
    } else {
        worktree_step(worktree_of(lines.drop_last()), lines.last())
    }
}

/// A value that names something, as opposed to a placeholder.
pub open spec fn is_given(v: Seq<char>) -> bool {
    v.len() > 0 && v != "(pending)"@
}

/// The state after one section has been read.
pub open spec fn apply_section_spec(st: FlowStateV, section: Seq<char>, lines: Seq<Seq<char>>) -> FlowStateV {
    let value = section_value(lines);
    if section == "Current Phase"@ {
        FlowStateV {
            phase: match phase_parse(value) {
                Some(p) => p,
                None => Phase::Inception,
            },
            ..st
        }
    } else if section == "Current Stage"@ {
        FlowStateV { stage: value, ..st }
    } else if section == "Complexity"@ {
        FlowStateV {
            complexity: match complexity_parse(value) {
                Some(c) => c,
                None => Complexity::Standard,
            },
            ..st
        }
    } else if section == "Selected Approach"@ {
        if is_given(value) {
            FlowStateV { selected_approach: Some(value), ..st }
        } else {
            st
        }
    } else if section == "Completed Stages"@ {
        FlowStateV { completed_stages: collect_some(lines, completed_item_fn()), ..st }
    } else if section == "Approved Stages"@ {
        FlowStateV { approved_stages: collect_some(lines, approved_item_fn()), ..st }
    } else if section == "Skipped Stages"@ {
        FlowStateV { skipped_stages: collect_some(lines, skipped_item_fn()), ..st }
    } else if section == "Active Unit"@ {
        if is_given(value) {
            FlowStateV { active_unit: Some(value), ..st }
        } else {
            st
        }
    } else if section == "Completed Units"@ {
        FlowStateV { completed_units: collect_some(lines, unit_item_fn()), ..st }
    } else if section == "Worktree"@ {
        FlowStateV { worktree: worktree_of(lines), ..st }
    } else if value.len() > 0 {
        FlowStateV { extra_fields: st.extra_fields.insert(section, value), ..st }
    } else {
        st
    }
}

// ---------------------------------------------------------------------
// The scan over lines
// ---------------------------------------------------------------------

/// Where the scan stands: the state so far, the open section and its lines.
pub ghost struct Scan {
    pub state: FlowStateV,
    pub section: Option<Seq<char>>,
    pub lines: Seq<Seq<char>>,
}

/// The state once the open section, if any, has been applied.
pub open spec fn flushed(a: Scan) -> FlowStateV {
    match a.section {
        Some(sec) => apply_section_spec(a.state, sec, a.lines),
        None => a.state,
    }
}

pub open spec fn scan_step(a: Scan, line: Seq<char>) -> Scan {
    match strip_prefix(line, "## "@) {
        Some(h) => Scan { state: flushed(a), section: Some(trim(h)), lines: Seq::empty() },
        None => if starts_with(line, "# "@) {
            a
        } else if a.section is Some {
            Scan { lines: a.lines.push(line), ..a }
        } else {
            a
        },
    }
}

pub open spec fn scan(ls: Seq<Seq<char>>) -> Scan
    decreases ls.len(),
{
    if ls.len() == 0 {
        Scan { state: default_flow_state(), section: None, lines: Seq::empty() }
    } else {
        scan_step(scan(ls.drop_last()), ls.last())
    }
}

/// What `parse` returns for a document: escape sequences are removed, the
/// text is split into lines, and each `## Section` is applied in order.
pub open spec fn parse_flow_state(content: Seq<char>) -> FlowStateV {
    flushed(scan(lines(strip_ansi_spec(content))))
}

// ---------------------------------------------------------------------
// Executable parser
// ---------------------------------------------------------------------

/// Parse `devflow-state.md` content into a `FlowState`.
///
/// Tolerant: unknown non-empty sections are stored in `extra_fields`, and
/// empty or minimal content gives the default state.
pub fn parse(content: &str) -> (r: FlowState)
    ensures
        r@ == parse_flow_state(content@),
{
    let raw = chars_of(content);
    let clean = strip_ansi_chars(&raw);
    let ls = lines_of(&clean);
    let ghost lsv = views(ls@);
    let hh = chars_of("## ");
    let h1 = chars_of("# ");
    let mut state = FlowState::default();
    let mut section: Option<Vec<char>> = None;
    let mut sec_lines: Vec<Vec<char>> = Vec::new();
    let mut i: usize = 0;
    proof {
        assert(lsv.take(0) =~= Seq::<Seq<char>>::empty());
        assert(views(sec_lines@) =~= Seq::<Seq<char>>::empty());
    }
    while i < ls.len()
        invariant
            i <= ls@.len(),
            lsv == views(ls@),
            lsv == lines(clean@),
            clean@ == strip_ansi_spec(content@),
            hh@ == "## "@,
            h1@ == "# "@,
            (Scan { state: state@, section: opt_view(section), lines: views(sec_lines@) }) == scan(
                lsv.take(i as int),
            ),
        decreases ls.len() - i,
    {
        proof {
            assert(lsv.take(i + 1).drop_last() =~= lsv.take(i as int));
        }
        let line = &ls[i];
        match strip_prefix_chars(line, &hh) {
            Some(h) => {
                match &section {
                    Some(sec) => {
                        apply_section(&mut state, sec, &sec_lines);
                    },
                    None => {},
                }
                section = Some(trimmed(&h));
                sec_lines = Vec::new();
                proof {
                    assert(views(sec_lines@) =~= Seq::<Seq<char>>::empty());
                }
            },
            None => {
                if starts_with_chars(line, &h1) {
                } else if section.is_some() {
                    let ghost before = views(sec_lines@);
                    sec_lines.push(line.clone());
                    proof {
                        assert(views(sec_lines@) =~= before.push(lsv[i as int]));
                    }
                }
            },
        }
        i = i + 1;
    }
    proof {
        assert(lsv.take(i as int) =~= lsv);
    }
    match &section {
        Some(sec) => {
            apply_section(&mut state, sec, &sec_lines);
        },
        None => {},
    }
    state
}

/// Apply one section's lines to the state.
fn apply_section(state: &mut FlowState, section: &[char], lines: &Vec<Vec<char>>)
    ensures
        final(state)@ == apply_section_spec(old(state)@, section@, views(lines@)),
{
    let value = section_value_of(lines);
    let ghost ls = views(lines@);
    if eq_chars(section, &chars_of("Current Phase")) {
        let vs = string_of(&value);
        state.phase = match Phase::parse_str(vs.as_str()) {
            Ok(p) => p,
            Err(_) => Phase::Inception,
        };
    } else if eq_chars(section, &chars_of("Current Stage")) {
        state.stage = string_of(&value);
    } else if eq_chars(section, &chars_of("Complexity")) {
        let vs = string_of(&value);
        state.complexity = match Complexity::parse_str(vs.as_str()) {
            Ok(c) => c,
            Err(_) => Complexity::Standard,
        };
    } else if eq_chars(section, &chars_of("Selected Approach")) {
        if value.len() > 0 && !eq_chars(&value, &chars_of("(pending)")) {
            state.selected_approach = Some(string_of(&value));
        }
    } else if eq_chars(section, &chars_of("Completed Stages")) {
        state.completed_stages = parse_completed_stages(lines);
    } else if eq_chars(section, &chars_of("Approved Stages")) {
        state.approved_stages = parse_approved_stages(lines);
    } else if eq_chars(section, &chars_of("Skipped Stages")) {
        state.skipped_stages = parse_skipped_stages(lines);
    } else if eq_chars(section, &chars_of("Active Unit")) {
        if value.len() > 0 && !eq_chars(&value, &chars_of("(pending)")) {
            state.active_unit = Some(string_of(&value));
        }
    } else if eq_chars(section, &chars_of("Completed Units")) {
        state.completed_units = parse_completed_units(lines);
    } else if eq_chars(section, &chars_of("Worktree")) {
        state.worktree = parse_worktree(lines);
    } else if value.len() > 0 {
        state.extra_fields.insert(string_of(section), string_of(&value));
    }
}

fn completed_item_of(l: &[char]) -> (r: Option<CompletedStage>)
    ensures
        match r {
            Some(c) => completed_item(l@) == Some(c@),
            None => completed_item(l@) is None,
        },
{
    let t = trimmed(l);
    match strip_prefix_chars(&t, &chars_of("- ")) {
        None => None,
        Some(rest) => match rsplit_once_chars(&rest, '(') {
            Some((n, ts)) => {
                let te = trim_end_matches_chars(&ts, ')');
                Some(
                    CompletedStage {
                        name: string_of(&trimmed(&n)),
                        timestamp: Some(string_of(&trimmed(&te))),
                    },
                )
            },
            None => Some(CompletedStage { name: string_of(&trimmed(&rest)), timestamp: None }),
        },
    }
}

fn tagged_item_of(l: &[char], tag: &[char]) -> (r: Option<(String, Option<String>)>)
    ensures
        match r {
            Some((n, d)) => tagged_item(l@, tag@) == Some((n@, opt_str(d))),
            None => tagged_item(l@, tag@) is None,
        },
{
    let t = trimmed(l);
    match strip_prefix_chars(&t, &chars_of("- ")) {
        None => None,
        Some(rest) => match split_once_chars(&rest, '—') {
            Some((n, d)) => {
                let dt = trimmed(&d);
                let val = match strip_prefix_chars(&dt, tag) {
                    Some(v) => Some(string_of(&trimmed(&v))),
                    None => None,
                };
                Some((string_of(&trimmed(&n)), val))
            },
            None => Some((string_of(&trimmed(&rest)), None)),
        },
    }
}

fn parse_completed_stages(lines: &Vec<Vec<char>>) -> (r: Vec<CompletedStage>)
    ensures
        completed_views(r@) == collect_some(views(lines@), completed_item_fn()),
{
    let ghost ls = views(lines@);
    let mut out: Vec<CompletedStage> = Vec::new();
    let mut i: usize = 0;
    while i < lines.len()
        invariant
            i <= lines@.len(),
            ls == views(lines@),
            completed_views(out@) == collect_some(ls.take(i as int), completed_item_fn()),
        decreases lines.len() - i,
    {
        proof {
            assert(ls.take(i + 1).drop_last() =~= ls.take(i as int));
        }
        let ghost before = completed_views(out@);
        match completed_item_of(&lines[i]) {
            Some(c) => {
                let ghost cv = c@;
                out.push(c);
                proof {
                    assert(completed_views(out@) =~= before.push(cv));
                }
            },
            None => {},
        }
        i = i + 1;
    }
    proof {
        assert(ls.take(i as int) =~= ls);
    }
    out
}

fn parse_approved_stages(lines: &Vec<Vec<char>>) -> (r: Vec<ApprovedStage>)
    ensures
        approved_views(r@) == collect_some(views(lines@), approved_item_fn()),
{
    let ghost ls = views(lines@);
    let tag = chars_of("depth:");
    let mut out: Vec<ApprovedStage> = Vec::new();
    let mut i: usize = 0;
    while i < lines.len()
        invariant
            i <= lines@.len(),
            ls == views(lines@),
            tag@ == "depth:"@,
            approved_views(out@) == collect_some(ls.take(i as int), approved_item_fn()),
        decreases lines.len() - i,
    {
        proof {
            assert(ls.take(i + 1).drop_last() =~= ls.take(i as int));
        }
        let ghost before = approved_views(out@);
        match tagged_item_of(&lines[i], &tag) {
            Some((name, depth)) => {
                let a = ApprovedStage { name, depth };
                let ghost av = a@;
                out.push(a);
                proof {
                    assert(approved_views(out@) =~= before.push(av));
                }
            },
            None => {},
        }
        i = i + 1;
    }
    proof {
        assert(ls.take(i as int) =~= ls);
    }
    out
}

fn parse_skipped_stages(lines: &Vec<Vec<char>>) -> (r: Vec<SkippedStage>)
    ensures
        skipped_views(r@) == collect_some(views(lines@), skipped_item_fn()),
{
    let ghost ls = views(lines@);
    let tag = chars_of("reason:");
    let mut out: Vec<SkippedStage> = Vec::new();
    let mut i: usize = 0;
    while i < lines.len()
        invariant
            i <= lines@.len(),
            ls == views(lines@),
            tag@ == "reason:"@,
            skipped_views(out@) == collect_some(ls.take(i as int), skipped_item_fn()),
        decreases lines.len() - i,
    {
        proof {
            assert(ls.take(i + 1).drop_last() =~= ls.take(i as int));
        }
        let ghost before = skipped_views(out@);
        match tagged_item_of(&lines[i], &tag) {
            Some((name, reason)) => {
                let a = SkippedStage { name, reason };
                let ghost av = a@;
                out.push(a);
                proof {
                    assert(skipped_views(out@) =~= before.push(av));
                }
            },
            None => {},
        }
        i = i + 1;
    }
    proof {
        assert(ls.take(i as int) =~= ls);
    }
    out
}

fn parse_completed_units(lines: &Vec<Vec<char>>) -> (r: Vec<String>)
    ensures
        str_views(r@) == collect_some(views(lines@), unit_item_fn()),
{
    let ghost ls = views(lines@);
    let dash = chars_of("- ");
    let mut out: Vec<String> = Vec::new();
    let mut i: usize = 0;
    while i < lines.len()
        invariant
            i <= lines@.len(),
            ls == views(lines@),
            dash@ == "- "@,
            str_views(out@) == collect_some(ls.take(i as int), unit_item_fn()),
        decreases lines.len() - i,
    {
        proof {
            assert(ls.take(i + 1).drop_last() =~= ls.take(i as int));
        }
        let ghost before = str_views(out@);
        let t = trimmed(&lines[i]);
        match strip_prefix_chars(&t, &dash) {
            Some(s) => {
                let u = string_of(&trimmed(&s));
                let ghost uv = u@;
                out.push(u);
                proof {
                    assert(str_views(out@) =~= before.push(uv));
                }
            },
            None => {},
        }
        i = i + 1;
    }
    proof {
        assert(ls.take(i as int) =~= ls);
    }
    out
}

fn parse_worktree(lines: &Vec<Vec<char>>) -> (r: WorktreeInfo)
    ensures
        r@ == worktree_of(views(lines@)),
{
    let ghost ls = views(lines@);
    let mut info = WorktreeInfo::default();
    let mut i: usize = 0;
    while i < lines.len()
        invariant
            i <= lines@.len(),
            ls == views(lines@),
            info@ == worktree_of(ls.take(i as int)),
        decreases lines.len() - i,
    {
        proof {
            assert(ls.take(i + 1).drop_last() =~= ls.take(i as int));
        }
        let t = trimmed(&lines[i]);
        match split_once_chars(&t, ':') {
            Some((k, v)) => {
                let key = lowercase_chars(&trimmed(&k));
                set_worktree_field(&mut info, &key, &trimmed(&v));
            },
            None => {},
        }
        i = i + 1;
    }
    proof {
        assert(ls.take(i as int) =~= ls);
    }
    info
}

// ---------------------------------------------------------------------
// Laws
// ---------------------------------------------------------------------

/// Trimming a text that starts with a non-blank keeps it up to its last
/// non-blank, so past any non-blank at `k`.
proof fn lemma_trim_keeps(l: Seq<char>, k: int) -> (m: int)
    requires
        0 <= k < l.len(),
        !is_ws(l[0]),
        !is_ws(l[k]),
    ensures
        k < m <= l.len(),
        trim(l) == l.take(m),
{
    assert(ws_prefix_len(l) == 0);
    assert(trim_start(l) =~= l);
    lemma_ws_suffix_len(l);
    let m = l.len() - ws_suffix_len(l);
    assert(m > k) by {
        if m <= k {
            assert(is_ws(l[k]));
        }
    }
    m
}

/// The name part of `- N — ...`, after the bullet: `N`, a space, then the em dash.
proof fn lemma_name_then_dash(t: Seq<char>, n: Seq<char>)
    requires
        t.len() > n.len() + 1,
        t.take(n.len() as int) == n,
        t[n.len() as int] == ' ',
        t[n.len() + 1int] == '—',
        !n.contains('—'),
    ensures
        find_char(t, '—') == Some(n.len() + 1int),
{
    let j: int = n.len() + 1int;
    assert forall|i: int| 0 <= i < j implies t[i] != '—' by {
        if i < n.len() {
            assert(t.take(n.len() as int)[i] == t[i]);
        }
    }
    assert(first_at(t, '—', j));
    lemma_find_char(t, '—');
}

/// The name of a `- N — ...` line: whatever follows the dash, the name is
/// `N`, trimmed, when `N` holds no em dash of its own.
pub proof fn lemma_tagged_item_name(n: Seq<char>, rest: Seq<char>, tag: Seq<char>)
    requires
        !n.contains('—'),
    ensures
        tagged_item("- "@ + n + " — "@ + rest, tag) matches Some((name, _)) && name == trim(n),
{
    reveal_strlit("- ");
    reveal_strlit(" — ");
    let l = "- "@ + n + " — "@ + rest;
    let k: int = n.len() + 3int;
    assert(l[0] == '-' && l[k] == '—');
    let m = lemma_trim_keeps(l, k);
    let tl = trim(l);
    assert(tl.take(2) =~= "- "@);
    let t = tl.skip(2);
    assert(strip_prefix(tl, "- "@) == Some(t));
    assert(t.take(n.len() as int) =~= n);
    assert(t[n.len() as int] == ' ');
    assert(t[n.len() + 1int] == '—');
    lemma_name_then_dash(t, n);
    assert(t.take(n.len() + 1int) =~= n.push(' '));
    lemma_trim_drop_ws(n.push(' '));
    assert(n.push(' ').drop_last() =~= n);
}

/// A text with one blank before non-blank ends trims to what follows the blank.
proof fn lemma_trim_one_blank(x: Seq<char>)
    requires
        x.len() > 0,
        !is_ws(x[0]),
        !is_ws(x.last()),
    ensures
        trim(seq![' '] + x) == x,
{
    let s = seq![' '] + x;
    assert(s[1] == x[0]);
    lemma_ws_prefix_len_unique(s, 1);
    assert(trim_start(s) =~= x);
    lemma_ws_suffix_len_unique(x, 0);
    assert(trim(s) =~= x);
}

proof fn lemma_tagged_item_parts(
    l: Seq<char>,
    t: Seq<char>,
    n: Seq<char>,
    d: Seq<char>,
    tag: Seq<char>,
    v: Seq<char>,
    w: Seq<char>,
)
    requires
        strip_prefix(trim(l), "- "@) == Some(t),
        split_once(t, '—') == Some((n, d)),
        strip_prefix(trim(d), tag) == Some(w),
        trim(w) == v,
    ensures
        tagged_item(l, tag) == Some((trim(n), Some(v))),
{
}

/// The pieces of `N ` and ` <tag> V` once trimmed and stripped.
proof fn lemma_value_part(n: Seq<char>, tag: Seq<char>, v: Seq<char>)
    requires
        tag.len() > 0,
        !is_ws(tag[0]),
        v.len() > 0,
        !is_ws(v[0]),
        !is_ws(v.last()),
    ensures
        trim(n.push(' ')) == trim(n),
        trim(seq![' '] + (tag + seq![' '] + v)) == tag + seq![' '] + v,
        strip_prefix(tag + seq![' '] + v, tag) == Some(seq![' '] + v),
        trim(seq![' '] + v) == v,
{
    lemma_trim_drop_ws(n.push(' '));
    assert(n.push(' ').drop_last() =~= n);
    let rest = tag + seq![' '] + v;
    assert(rest[0] == tag[0] && rest.last() == v.last());
    lemma_trim_one_blank(rest);
    assert(rest.take(tag.len() as int) =~= tag);
    assert(rest.skip(tag.len() as int) =~= seq![' '] + v);
    lemma_trim_one_blank(v);
}

/// The value of a `- N — <tag> V` line: `V`, when it starts and ends with
/// a non-blank; and the name is still `N`, trimmed.
pub proof fn lemma_tagged_item_value(n: Seq<char>, tag: Seq<char>, v: Seq<char>)
    requires
        !n.contains('—'),
        tag.len() > 0,
        !is_ws(tag[0]),
        v.len() > 0,
        !is_ws(v[0]),
        !is_ws(v.last()),
    ensures
        tagged_item("- "@ + n + " — "@ + tag + seq![' '] + v, tag) == Some((trim(n), Some(v))),
{
    let rest = tag + seq![' '] + v;
    let l = "- "@ + n + " — "@ + rest;
    let t = l.skip(2);
    assert("- "@ + n + " — "@ + tag + seq![' '] + v =~= l) by {
        reveal_strlit("- ");
        reveal_strlit(" — ");
    }
    assert(trim(l) == l && strip_prefix(l, "- "@) == Some(t)) by {
        reveal_strlit("- ");
        reveal_strlit(" — ");
        assert(l[0] == '-' && l.last() == v.last());
        lemma_ws_prefix_len_unique(l, 0);
        lemma_ws_suffix_len_unique(l, 0);
        assert(trim(l) =~= l);
        assert(l.take(2) =~= "- "@);
    }
    let nb = t.take(n.len() + 1int);
    let d = t.skip(n.len() + 2int);
    assert(split_once(t, '—') == Some((nb, d))) by {
        reveal_strlit("- ");
        reveal_strlit(" — ");
        assert(t.take(n.len() as int) =~= n);
        assert(t[n.len() as int] == ' ');
        assert(t[n.len() + 1int] == '—');
        lemma_name_then_dash(t, n);
    }
    assert(nb =~= n.push(' ') && d =~= seq![' '] + rest) by {
        reveal_strlit("- ");
        reveal_strlit(" — ");
    }
    lemma_value_part(n, tag, v);
    let w = seq![' '] + v;
    lemma_tagged_item_parts(l, t, nb, d, tag, v, w);
}

/// A skipped stage's name is the text before the em dash, trimmed, and
/// its reason what follows `reason:`, whatever the rest of the line holds.
pub proof fn lemma_skipped_item_name(n: Seq<char>, reason: Seq<char>)
    requires
        !n.contains('—'),
    ensures
        skipped_item("- "@ + n + " — reason: "@ + reason) matches Some(s) && s.name == trim(n),
{
    reveal_strlit(" — reason: ");
    reveal_strlit(" — ");
    reveal_strlit("reason: ");
    assert(" — reason: "@ + reason =~= " — "@ + ("reason: "@ + reason));
    assert("- "@ + n + " — reason: "@ + reason =~= "- "@ + n + " — "@ + ("reason: "@ + reason));
    lemma_tagged_item_name(n, "reason: "@ + reason, "reason:"@);
}

/// An approved stage's name is the text before the em dash, trimmed,
/// whatever depth follows.
pub proof fn lemma_approved_item_name(n: Seq<char>, depth: Seq<char>)
    requires
        !n.contains('—'),
    ensures
        approved_item("- "@ + n + " — depth: "@ + depth) matches Some(a) && a.name == trim(n),
{
    reveal_strlit(" — depth: ");
    reveal_strlit(" — ");
    reveal_strlit("depth: ");
    assert("- "@ + n + " — depth: "@ + depth =~= "- "@ + n + " — "@ + ("depth: "@ + depth));
    lemma_tagged_item_name(n, "depth: "@ + depth, "depth:"@);
}

/// A skipped stage line `- N — reason: R` (with `R` non-blank at both
/// ends) gives the stage `N`, trimmed, skipped for reason `R`.
pub proof fn lemma_skipped_item_reason(n: Seq<char>, reason: Seq<char>)
    requires
        !n.contains('—'),
        reason.len() > 0,
        !is_ws(reason[0]),
        !is_ws(reason.last()),
    ensures
        skipped_item("- "@ + n + " — reason: "@ + reason) == Some(ReasonedStageV { name: trim(n), reason: Some(reason) }),
{
    reveal_strlit(" — reason: ");
    reveal_strlit(" — ");
    reveal_strlit("reason:");
    assert("- "@ + n + " — reason: "@ + reason =~= "- "@ + n + " — "@ + "reason:"@ + seq![' '] + reason);
    lemma_tagged_item_value(n, "reason:"@, reason);
}

/// An approved stage line `- N — depth: D` (with `D` non-blank at both
/// ends) gives the stage `N`, trimmed, approved at depth `D`.
pub proof fn lemma_approved_item_depth(n: Seq<char>, depth: Seq<char>)
    requires
        !n.contains('—'),
        depth.len() > 0,
        !is_ws(depth[0]),
        !is_ws(depth.last()),
    ensures
        approved_item("- "@ + n + " — depth: "@ + depth) == Some(ApprovedStageV { name: trim(n), depth: Some(depth) }),
{
    reveal_strlit(" — depth: ");
    reveal_strlit(" — ");
    reveal_strlit("depth:");
    assert("- "@ + n + " — depth: "@ + depth =~= "- "@ + n + " — "@ + "depth:"@ + seq![' '] + depth);
    lemma_tagged_item_value(n, "depth:"@, depth);
}

} // verus!
