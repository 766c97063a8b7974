//! Parser for `session-summary.md`: `**Key**: value` metadata lines before
//! the first section, then `## Section` blocks (current state, decisions,
//! completed work with `[x]`/`[~]`/`[ ]` markers, next steps).

use vstd::prelude::*;

use crate::parser::models::{
    complexity_parse, default_session_summary, phase_parse, work_item_views, Complexity, Phase,
    SessionSummary, SessionSummaryV, WorkItem, WorkItemV, WorkMarker,
};
use crate::parser::section::{bullet_list, bullet_list_of, collect_some, kept_lines, unbullet};
use crate::service::sanitizer::{strip_ansi_chars, strip_ansi_spec};
use crate::text::{
    chars_of, eq_chars, lines, lines_of, opt_view, starts_with, starts_with_chars, string_of,
    strip_prefix, strip_prefix_chars, trim, trimmed, views, is_ws, ws_prefix_len, ws_suffix_len, trim_start,
};

verus! {

broadcast use vstd::seq_lib::group_seq_properties;

/// A metadata line before the first section.
pub open spec fn metadata_step(s: SessionSummaryV, line: Seq<char>) -> SessionSummaryV {
    match strip_prefix(line, "**Last Updated**:"@) {
        Some(rest) => SessionSummaryV { last_updated: Some(trim(rest)), ..s },
        None => match strip_prefix(line, "**Commit**:"@) {
            Some(rest) => SessionSummaryV { commit: Some(trim(rest)), ..s },
            None => s,
        },
    }
}

/// One line of the `Current State` section (`- Key: value`).
pub open spec fn current_state_step(s: SessionSummaryV, l: Seq<char>) -> SessionSummaryV {
    let t = unbullet(trim(l));
    if let Some(v) = strip_prefix(t, "Phase:"@) {
        match phase_parse(trim(v)) {
            Some(p) => SessionSummaryV { phase: Some(p), ..s },
            None => s,
        }
    } else if let Some(v) = strip_prefix(t, "Stage:"@) {
        SessionSummaryV { stage: Some(trim(v)), ..s }
    } else if let Some(v) = strip_prefix(t, "Complexity:"@) {
        match complexity_parse(trim(v)) {
            Some(c) => SessionSummaryV { complexity: Some(c), ..s },
            None => s,
        }
    } else if let Some(v) = strip_prefix(t, "Commit:"@) {
        SessionSummaryV { commit: Some(trim(v)), ..s }
    } else {
        s
    }
}

pub open spec fn current_state_of(s: SessionSummaryV, lines: Seq<Seq<char>>) -> SessionSummaryV
    decreases lines.len(),
{
    if lines.len() == 0 {
        s
    } else {
        current_state_step(current_state_of(s, lines.drop_last()), lines.last())
    }
}

/// `[x] text`, `[~] text` or `[ ] text`.
pub open spec fn single_work_item(t: Seq<char>) -> Option<WorkItemV> {
    if let Some(rest) = strip_prefix(t, "[x] "@) {
        Some(WorkItemV { text: rest, marker: WorkMarker::Done })
    } else if let Some(rest) = strip_prefix(t, "[~] "@) {
        Some(WorkItemV { text: rest, marker: WorkMarker::InProgress })
    } else if let Some(rest) = strip_prefix(t, "[ ] "@) {
        Some(WorkItemV { text: rest, marker: WorkMarker::Pending })
    } else {
        None
    }
}

pub open spec fn work_item_fn() -> spec_fn(Seq<char>) -> Option<WorkItemV> {
    |l: Seq<char>| single_work_item(unbullet(trim(l)))
}

/// The summary after one section has been read.
pub open spec fn apply_section_spec(s: SessionSummaryV, section: Seq<char>, lines: Seq<Seq<char>>) -> SessionSummaryV {
    if section == "Current State"@ {
        current_state_of(s, lines)
    } else if section == "Key Decisions"@ {
        SessionSummaryV { key_decisions: bullet_list(lines), ..s }
    } else if section == "Completed Work"@ || section == "INCEPTION"@ || section == "CONSTRUCTION"@ {
        SessionSummaryV {
            completed_work: s.completed_work + collect_some(lines, work_item_fn()),
            ..s
        }
    } else if section == "Next Steps"@ {
        SessionSummaryV { next_steps: bullet_list(lines), ..s }
    } else if section == "For Next Session"@ {
        SessionSummaryV { for_next_session: bullet_list(lines), ..s }
    } else {
        s
    }
}

pub ghost struct SummaryScan {
    pub summary: SessionSummaryV,
    pub section: Option<Seq<char>>,
    pub lines: Seq<Seq<char>>,
}

pub open spec fn flushed(a: SummaryScan) -> SessionSummaryV {
    match a.section {
        Some(sec) => apply_section_spec(a.summary, sec, a.lines),
        None => a.summary,
    }
}

pub open spec fn scan_step(a: SummaryScan, line: Seq<char>) -> SummaryScan {
    match strip_prefix(line, "## "@) {
        Some(h) => SummaryScan { summary: flushed(a), section: Some(trim(h)), lines: Seq::empty() },
        None => if starts_with(line, "# "@) {
            a
        } else if starts_with(line, "**"@) && a.section is None {
            SummaryScan { summary: metadata_step(a.summary, line), ..a }
        } else if a.section is Some {
            SummaryScan { lines: a.lines.push(line), ..a }
        } else {
            a
        },
    }
}

pub open spec fn scan(ls: Seq<Seq<char>>) -> SummaryScan
    decreases ls.len(),
{
    if ls.len() == 0 {
        SummaryScan { summary: default_session_summary(), section: None, lines: Seq::empty() }
    } else {
        scan_step(scan(ls.drop_last()), ls.last())
    }
}

/// What `parse` returns: escape sequences removed, lines scanned, and each
/// section applied in order.
pub open spec fn parse_session_summary(content: Seq<char>) -> SessionSummaryV {
    flushed(scan(lines(strip_ansi_spec(content))))
}

/// Parse `session-summary.md` content into a `SessionSummary`.
pub fn parse(content: &str) -> (r: SessionSummary)
    ensures
        r@ == parse_session_summary(content@),
{
    let raw = chars_of(content);
    let clean = strip_ansi_chars(&raw);
    let ls = lines_of(&clean);
    let ghost lsv = views(ls@);
    let hh = chars_of("## ");
    let h1 = chars_of("# ");
    let stars = chars_of("**");
    let mut summary = SessionSummary::default();
    let mut section: Option<Vec<char>> = None;
    let mut sec_lines: Vec<Vec<char>> = Vec::new();
    let mut i: usize = 0;
    proof {
        assert(lsv.take(0) =~= Seq::<Seq<char>>::empty());
        assert(views(sec_lines@) =~= Seq::<Seq<char>>::empty());
    }
    while i < ls.len()
        invariant
            i <= ls@.len(),
            lsv == views(ls@),
            lsv == lines(clean@),
            clean@ == strip_ansi_spec(content@),
            hh@ == "## "@,
            h1@ == "# "@,
            stars@ == "**"@,
            (SummaryScan {
                summary: summary@,
                section: opt_view(section),
                lines: views(sec_lines@),
            }) == scan(lsv.take(i as int)),
        decreases ls.len() - i,
    {
        proof {
            assert(lsv.take(i + 1).drop_last() =~= lsv.take(i as int));
        }
        let line = &ls[i];
        match strip_prefix_chars(line, &hh) {
            Some(h) => {
                match &section {
                    Some(sec) => {
                        apply_section(&mut summary, sec, &sec_lines);
                    },
                    None => {},
                }
                section = Some(trimmed(&h));
                sec_lines = Vec::new();
                proof {
                    assert(views(sec_lines@) =~= Seq::<Seq<char>>::empty());
                }
            },
            None => {
                if starts_with_chars(line, &h1) {
                } else if starts_with_chars(line, &stars) && section.is_none() {
                    parse_metadata_line(&mut summary, line);
                } else if section.is_some() {
                    let ghost before = views(sec_lines@);
                    sec_lines.push(line.clone());
                    proof {
                        assert(views(sec_lines@) =~= before.push(lsv[i as int]));
                    }
                }
            },
        }
        i = i + 1;
    }
    proof {
        assert(lsv.take(i as int) =~= lsv);
    }
    match &section {
        Some(sec) => {
            apply_section(&mut summary, sec, &sec_lines);
        },
        None => {},
    }
    summary
}

fn parse_metadata_line(summary: &mut SessionSummary, line: &[char])
    ensures
        final(summary)@ == metadata_step(old(summary)@, line@),
{
    match strip_prefix_chars(line, &chars_of("**Last Updated**:")) {
        Some(rest) => {
            summary.last_updated = Some(string_of(&trimmed(&rest)));
        },
        None => match strip_prefix_chars(line, &chars_of("**Commit**:")) {
            Some(rest) => {
                summary.commit = Some(string_of(&trimmed(&rest)));
            },
            None => {},
        },
    }
}

fn current_state_line(summary: &mut SessionSummary, l: &[char])
    ensures
        final(summary)@ == current_state_step(old(summary)@, l@),
{
    let t0 = trimmed(l);
    let t = match strip_prefix_chars(&t0, &chars_of("- ")) {
        Some(r) => r,
        None => t0,
    };
    if let Some(v) = strip_prefix_chars(&t, &chars_of("Phase:")) {
        let vs = string_of(&trimmed(&v));
        match Phase::parse_str(vs.as_str()) {
            Ok(p) => {
                summary.phase = Some(p);
            },
            Err(_) => {},
        }
    } else if let Some(v) = strip_prefix_chars(&t, &chars_of("Stage:")) {
        summary.stage = Some(string_of(&trimmed(&v)));
    } else if let Some(v) = strip_prefix_chars(&t, &chars_of("Complexity:")) {
        let vs = string_of(&trimmed(&v));
        match Complexity::parse_str(vs.as_str()) {
            Ok(c) => {
                summary.complexity = Some(c);
            },
            Err(_) => {},
        }
    } else if let Some(v) = strip_prefix_chars(&t, &chars_of("Commit:")) {
        summary.commit = Some(string_of(&trimmed(&v)));
    }
}

fn apply_section(summary: &mut SessionSummary, section: &[char], lines: &Vec<Vec<char>>)
    ensures
        final(summary)@ == apply_section_spec(old(summary)@, section@, views(lines@)),
{
    let ghost ls = views(lines@);
    if eq_chars(section, &chars_of("Current State")) {
        let mut i: usize = 0;
        let ghost s0 = summary@;
        while i < lines.len()
            invariant
                i <= lines@.len(),
                ls == views(lines@),
                summary@ == current_state_of(s0, ls.take(i as int)),
            decreases lines.len() - i,
        {
            proof {
                assert(ls.take(i + 1).drop_last() =~= ls.take(i as int));
            }
            current_state_line(summary, &lines[i]);
            i = i + 1;
        }
        proof {
            assert(ls.take(i as int) =~= ls);
        }
    } else if eq_chars(section, &chars_of("Key Decisions")) {
        summary.key_decisions = bullet_list_of(lines);
    } else if eq_chars(section, &chars_of("Completed Work")) || eq_chars(
        section,
        &chars_of("INCEPTION"),
    ) || eq_chars(section, &chars_of("CONSTRUCTION")) {
        let ghost before = summary@.completed_work;
        let mut items = parse_work_items(lines);
        let ghost added = work_item_views(items@);
        summary.completed_work.append(&mut items);
        proof {
            assert(summary@.completed_work =~= before + added);
        }
    } else if eq_chars(section, &chars_of("Next Steps")) {
        summary.next_steps = bullet_list_of(lines);
    } else if eq_chars(section, &chars_of("For Next Session")) {
        summary.for_next_session = bullet_list_of(lines);
    }
}

fn single_work_item_of(t: &[char]) -> (r: Option<WorkItem>)
    ensures
        match r {
            Some(w) => single_work_item(t@) == Some(w@),
            None => single_work_item(t@) is None,
        },
{
    if let Some(rest) = strip_prefix_chars(t, &chars_of("[x] ")) {
        Some(WorkItem { text: string_of(&rest), marker: WorkMarker::Done })
    } else if let Some(rest) = strip_prefix_chars(t, &chars_of("[~] ")) {
        Some(WorkItem { text: string_of(&rest), marker: WorkMarker::InProgress })
    } else if let Some(rest) = strip_prefix_chars(t, &chars_of("[ ] ")) {
        Some(WorkItem { text: string_of(&rest), marker: WorkMarker::Pending })
    } else {
        None
    }
}

fn parse_work_items(lines: &Vec<Vec<char>>) -> (r: Vec<WorkItem>)
    ensures
        work_item_views(r@) == collect_some(views(lines@), work_item_fn()),
{
    let ghost ls = views(lines@);
    let dash = chars_of("- ");
    let mut out: Vec<WorkItem> = Vec::new();
    let mut i: usize = 0;
    while i < lines.len()
        invariant
            i <= lines@.len(),
            ls == views(lines@),
            dash@ == "- "@,
            work_item_views(out@) == collect_some(ls.take(i as int), work_item_fn()),
        decreases lines.len() - i,
    {
        proof {
            assert(ls.take(i + 1).drop_last() =~= ls.take(i as int));
        }
        let t0 = trimmed(&lines[i]);
        let t = match strip_prefix_chars(&t0, &dash) {
            Some(r) => r,
            None => t0,
        };
        let ghost before = work_item_views(out@);
        match single_work_item_of(&t) {
            Some(w) => {
                let ghost wv = w@;
                out.push(w);
                proof {
                    assert(work_item_views(out@) =~= before.push(wv));
                }
            },
            None => {},
        }
        i = i + 1;
    }
    proof {
        assert(ls.take(i as int) =~= ls);
    }
    out
}

// ---------------------------------------------------------------------
// Laws
// ---------------------------------------------------------------------

/// A one-bullet section `- x` (with `x` ending in a non-blank) is the list `[x]`.
proof fn lemma_one_bullet(x: Seq<char>)
    requires
        x.len() > 0,
        !is_ws(x.last()),
    ensures
        bullet_list(seq!["- "@ + x]) == seq![x],
{
    reveal_strlit("- ");
    let l = "- "@ + x;
    assert(l[0] == '-');
    assert(l.last() == x.last());
    assert(ws_prefix_len(l) == 0);
    assert(trim_start(l) =~= l);
    assert(ws_suffix_len(l) == 0);
    assert(trim(l) =~= l);
    assert(seq![l].drop_last() =~= Seq::<Seq<char>>::empty());
    reveal_with_fuel(kept_lines, 2);
    assert(kept_lines(seq![l]) =~= seq![l]);
    assert(l.take(2) =~= "- "@);
    assert(l.skip(2) =~= x);
    assert(unbullet(l) == x);
    assert(bullet_list(seq![l]) =~= seq![x]);
}

/// The `Next Steps` section fills the next steps and nothing else; the
/// `For Next Session` section fills the items for the next session and
/// nothing else. A section of the single bullet `- x` gives exactly `[x]`.
pub proof fn lemma_next_steps_sections(s: SessionSummaryV, ls: Seq<Seq<char>>, x: Seq<char>)
    requires
        x.len() > 0,
        !is_ws(x.last()),
    ensures
        ({
            let a = apply_section_spec(s, "Next Steps"@, ls);
            &&& a.for_next_session == s.for_next_session
            &&& a.key_decisions == s.key_decisions
            &&& a.completed_work == s.completed_work
            &&& a.phase == s.phase && a.stage == s.stage
        }),
        ({
            let b = apply_section_spec(s, "For Next Session"@, ls);
            &&& b.next_steps == s.next_steps
            &&& b.key_decisions == s.key_decisions
            &&& b.completed_work == s.completed_work
            &&& b.phase == s.phase && b.stage == s.stage
        }),
        apply_section_spec(s, "Next Steps"@, seq!["- "@ + x]) == (SessionSummaryV { next_steps: seq![x], ..s }),
        apply_section_spec(s, "For Next Session"@, seq!["- "@ + x]) == (SessionSummaryV {
            for_next_session: seq![x],
            ..s
        }),
{
    reveal_strlit("Next Steps");
    reveal_strlit("For Next Session");
    reveal_strlit("Current State");
    reveal_strlit("Key Decisions");
    reveal_strlit("Completed Work");
    reveal_strlit("INCEPTION");
    reveal_strlit("CONSTRUCTION");
    let heads = seq!["Current State"@, "Key Decisions"@, "Completed Work"@, "INCEPTION"@, "CONSTRUCTION"@];
    assert(heads[0][0] == 'C' && heads[1][0] == 'K' && heads[2][0] == 'C' && heads[3][0] == 'I' && heads[4][0] == 'C');
    assert("Next Steps"@[0] == 'N' && "For Next Session"@[0] == 'F');
    assert("Next Steps"@ != "Current State"@ && "Next Steps"@ != "Key Decisions"@ && "Next Steps"@ != "Completed Work"@);
    assert("Next Steps"@ != "INCEPTION"@ && "Next Steps"@ != "CONSTRUCTION"@);
    assert("For Next Session"@ != "Current State"@ && "For Next Session"@ != "Key Decisions"@);
    assert("For Next Session"@ != "Completed Work"@ && "For Next Session"@ != "INCEPTION"@);
    assert("For Next Session"@ != "CONSTRUCTION"@ && "For Next Session"@ != "Next Steps"@);
    lemma_one_bullet(x);
}

} // verus!
