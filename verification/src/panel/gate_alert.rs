//! Gate alert panel: recognises when the assistant's last message asks the
//! user to pick among lettered choices (`A) ...`, `B) ...`) and holds the
//! gate until the user answers, the stage changes or Esc is pressed.

use vstd::prelude::*;

use crate::event::AppEvent;
use crate::parser::models::FlowState;
use crate::input::{KeyCode, KeyEvent};
use crate::action::Action;
use crate::text::{
    chars_of, clone_strings, eq_chars, lines, lines_of, owned, push_all, slice_to_vec, str_views,
    string_of, trim, trimmed, views,
};
use crate::ui::view::{blank, cat_chars, indented, line1, lines_view, push_indented, push_line, span, span_of, sv, Span, SpanV, Tone};

verus! {

broadcast use vstd::seq_lib::group_seq_properties;

// ---------------------------------------------------------------------
// Choice markers
// ---------------------------------------------------------------------

pub open spec fn is_upper(c: char) -> bool {
    'A' <= c && c <= 'Z'
}

/// Characters that may precede a choice marker.
pub open spec fn is_marker_sep(c: char) -> bool {
    c == ' ' || c == '*' || c == '\t'
}

/// `X)` with `X` an uppercase ASCII letter starts at `i`, preceded by a
/// space, `*` or tab; at position 0 only when `at_start` allows it.
pub open spec fn mark_at(s: Seq<char>, i: int, at_start: bool) -> bool {
    0 <= i && i + 1 < s.len() && is_upper(s[i]) && s[i + 1] == ')' && if i == 0 {
        at_start
    } else {
        is_marker_sep(s[i - 1])
    }
}

/// The first position at or after `k` where a marker starts, or `s.len()`.
pub open spec fn first_mark(s: Seq<char>, k: int, at_start: bool) -> int
    decreases s.len() - k,
{
    if k < 0 || k + 1 >= s.len() {
        s.len() as int
    } else if mark_at(s, k, at_start) {
        k
    } else {
        first_mark(s, k + 1, at_start)
    }
}

/// The first position at or after `k` that is neither `*` nor a space, or `s.len()`.
pub open spec fn first_content(s: Seq<char>, k: int) -> int
    decreases s.len() - k,
{
    if k < 0 || k >= s.len() {
        s.len() as int
    } else if s[k] != '*' && s[k] != ' ' {
        k
    } else {
        first_content(s, k + 1)
    }
}

pub proof fn lemma_first_mark(s: Seq<char>, k: int, at_start: bool)
    requires
        0 <= k <= s.len(),
    ensures
        k <= first_mark(s, k, at_start) <= s.len(),
        first_mark(s, k, at_start) < s.len() ==> mark_at(s, first_mark(s, k, at_start), at_start),
    decreases s.len() - k,
{
    if k + 1 < s.len() && !mark_at(s, k, at_start) {
        lemma_first_mark(s, k + 1, at_start);
    }
}

pub proof fn lemma_first_content(s: Seq<char>, k: int)
    requires
        0 <= k <= s.len(),
    ensures
        k <= first_content(s, k) <= s.len(),
    decreases s.len() - k,
{
    if k < s.len() && !(s[k] != '*' && s[k] != ' ') {
        lemma_first_content(s, k + 1);
    }
}

/// The next choice of a line: `X) text` (its text running to the next
/// marker, trimmed, with leading `*` and spaces dropped) and what follows it.
pub open spec fn next_choice(s: Seq<char>) -> Option<(Seq<char>, Seq<char>)> {
    let i = first_mark(s, 0, true);
    if i >= s.len() {
        None
    } else {
        let after = s.skip(i + 2);
        let text = after.skip(first_content(after, 0));
        let e = first_mark(text, 0, false);
        Some((seq![s[i], ')', ' '] + trim(text.take(e)), text.skip(e)))
    }
}

pub proof fn lemma_next_choice_shrinks(s: Seq<char>)
    ensures
        next_choice(s) matches Some((c, rest)) ==> rest.len() < s.len(),
{
    lemma_first_mark(s, 0, true);
    let i = first_mark(s, 0, true);
    if i < s.len() {
        let after = s.skip(i + 2);
        lemma_first_content(after, 0);
        let text = after.skip(first_content(after, 0));
        lemma_first_mark(text, 0, false);
    }
}

/// All choices of one line, in order.
pub open spec fn line_choices(s: Seq<char>) -> Seq<Seq<char>>
    decreases s.len(),
{
    match next_choice(s) {
        Some((c, rest)) => {
            proof {
                lemma_next_choice_shrinks(s);
            }
            seq![c] + line_choices(rest)
        },
        None => Seq::empty(),
    }
}

/// The letters that label choices, in order.
pub open spec fn choice_letters() -> Seq<char> {
    "ABCDEFGHIJKLMNOPQRSTUVWXYZ"@
}

/// Choice `i` starts with the `i`-th letter of the alphabet followed by `)`
/// (so there are at most 26 of them).
pub open spec fn sequential(choices: Seq<Seq<char>>) -> bool {
    forall|i: int|
        0 <= i < choices.len() ==> #[trigger] choices[i].len() >= 2 && i < 26 && choices[i][0]
            == choice_letters()[i] && choices[i][1] == ')'
}

/// Choices and non-choice lines of a message, scanned line by line.
pub open spec fn gate_scan(ls: Seq<Seq<char>>) -> (Seq<Seq<char>>, Seq<Seq<char>>)
    decreases ls.len(),
{
    if ls.len() == 0 {
        (Seq::empty(), Seq::empty())
    } else {
        let (c, g) = gate_scan(ls.drop_last());
        let t = trim(ls.last());
        let lc = line_choices(t);
        if lc.len() == 0 {
            (c, if t.len() > 0 { g.push(t) } else { g })
        } else {
            (c + lc, g)
        }
    }
}

/// A gate: at least two choices, lettered `A)`, `B)`, ... in order; its
/// text is the last non-choice line (empty when there is none).
pub open spec fn detect_gate_spec(message: Seq<char>) -> Option<(Seq<char>, Seq<Seq<char>>)> {
    let (c, g) = gate_scan(lines(message));
    if c.len() >= 2 && sequential(c) {
        Some((if g.len() > 0 { g.last() } else { Seq::empty() }, c))
    } else {
        None
    }
}

// ---------------------------------------------------------------------
// Executable detection
// ---------------------------------------------------------------------

fn first_mark_from(s: &[char], k: usize, at_start: bool) -> (r: usize)
    requires
        k <= s@.len(),
    ensures
        r == first_mark(s@, k as int, at_start),
{
    let mut i = k;
    while s.len() > 1 && i < s.len() - 1
        invariant
            k <= i <= s@.len(),
            first_mark(s@, k as int, at_start) == first_mark(s@, i as int, at_start),
        decreases s.len() - i,
    {
        let c = s[i];
        if 'A' <= c && c <= 'Z' && s[i + 1] == ')' {
            let ok = if i == 0 {
                at_start
            } else {
                let p = s[i - 1];
                p == ' ' || p == '*' || p == '\t'
            };
            if ok {
                return i;
            }
        }
        i = i + 1;
    }
    s.len()
}

/// Position of the next choice marker in `s` (not at its very start), or `s.len()`.
pub fn find_next_choice_start(s: &[char]) -> (r: usize)
    ensures
        r == first_mark(s@, 0, false),
{
    first_mark_from(s, 0, false)
}

fn first_content_from(s: &[char]) -> (r: usize)
    ensures
        r == first_content(s@, 0),
{
    let mut i: usize = 0;
    while i < s.len() && (s[i] == '*' || s[i] == ' ')
        invariant
            i <= s@.len(),
            first_content(s@, 0) == first_content(s@, i as int),
        decreases s.len() - i,
    {
        i = i + 1;
    }
    i
}

/// The next choice of `s` and the text that follows it.
pub fn try_extract_next_choice(s: &[char]) -> (r: Option<(String, Vec<char>)>)
    ensures
        match r {
            Some((c, rest)) => next_choice(s@) == Some((c@, rest@)),
            None => next_choice(s@) is None,
        },
{
    let i = first_mark_from(s, 0, true);
    if i >= s.len() {
        return None;
    }
    proof {
        lemma_first_mark(s@, 0, true);
    }
    let after = slice_to_vec(s, i + 2, s.len());
    let ts = first_content_from(&after);
    proof {
        lemma_first_content(after@, 0);
    }
    let text = slice_to_vec(&after, ts, after.len());
    let e = find_next_choice_start(&text);
    proof {
        lemma_first_mark(text@, 0, false);
    }
    let head = slice_to_vec(&text, 0, e);
    let body = trimmed(&head);
    let mut cv: Vec<char> = Vec::new();
    cv.push(s[i]);
    cv.push(')');
    cv.push(' ');
    push_all(&mut cv, &body);
    let rest = slice_to_vec(&text, e, text.len());
    proof {
        assert(after@ =~= s@.skip(i + 2));
        assert(text@ =~= after@.skip(ts as int));
        assert(head@ =~= text@.take(e as int));
        assert(rest@ =~= text@.skip(e as int));
        assert(cv@ =~= seq![s@[i as int], ')', ' '] + trim(text@.take(e as int)));
    }
    Some((string_of(&cv), rest))
}

/// All choices of one line (`A) x B) y` gives two).
pub fn extract_choices_from_line(line: &[char]) -> (r: Vec<String>)
    ensures
        str_views(r@) == line_choices(line@),
{
    let mut out: Vec<String> = Vec::new();
    let mut remaining: Vec<char> = slice_to_vec(line, 0, line.len());
    proof {
        assert(remaining@ =~= line@);
        assert(str_views(out@) =~= Seq::<Seq<char>>::empty());
    }
    loop
        invariant
            str_views(out@) + line_choices(remaining@) == line_choices(line@),
        decreases remaining@.len(),
    {
        match try_extract_next_choice(&remaining) {
            Some((c, rest)) => {
                proof {
                    lemma_next_choice_shrinks(remaining@);
                }
                let ghost before = str_views(out@);
                let ghost cvw = c@;
                out.push(c);
                proof {
                    assert(str_views(out@) =~= before.push(cvw));
                    assert(line_choices(remaining@) == seq![cvw] + line_choices(rest@));
                    assert(before + (seq![cvw] + line_choices(rest@)) =~= before.push(cvw)
                        + line_choices(rest@));
                }
                remaining = rest;
            },
            None => {
                proof {
                    assert(str_views(out@) + Seq::<Seq<char>>::empty() =~= str_views(out@));
                }
                return out;
            },
        }
    }
}

/// Whether the choices are lettered `A)`, `B)`, `C)`, ... in order.
pub fn validate_sequential(choices: &Vec<String>) -> (r: bool)
    ensures
        r == sequential(str_views(choices@)),
{
    let letters = chars_of("ABCDEFGHIJKLMNOPQRSTUVWXYZ");
    let mut i: usize = 0;
    while i < choices.len()
        invariant
            i <= choices@.len(),
            letters@ == choice_letters(),
            forall|j: int|
                0 <= j < i ==> #[trigger] str_views(choices@)[j].len() >= 2 && j < 26
                    && str_views(choices@)[j][0] == choice_letters()[j] && str_views(
                    choices@,
                )[j][1] == ')',
        decreases choices.len() - i,
    {
        proof {
            reveal_strlit("ABCDEFGHIJKLMNOPQRSTUVWXYZ");
        }
        let c = chars_of(choices[i].as_str());
        proof {
            let v = str_views(choices@);
            assert(v[i as int] == c@);
        }
        if c.len() < 2 || i >= letters.len() || c[0] != letters[i] || c[1] != ')' {
            return false;
        }
        i = i + 1;
    }
    true
}

/// Look for a gate in a message: sequential lettered choices (`A)` then
/// `B)` ...), on their own lines or inline. Returns that gate's text (the
/// last line that holds no choice) and its choices.
pub fn detect_gate(message: &str) -> (r: Option<(String, Vec<String>)>)
    ensures
        match r {
            Some((t, c)) => detect_gate_spec(message@) == Some((t@, str_views(c@))),
            None => detect_gate_spec(message@) is None,
        },
{
    let ls = lines_of(&chars_of(message));
    let ghost lsv = views(ls@);
    let mut choices: Vec<String> = Vec::new();
    let mut gate_lines: Vec<String> = Vec::new();
    let mut i: usize = 0;
    proof {
        assert(str_views(choices@) =~= Seq::<Seq<char>>::empty());
        assert(str_views(gate_lines@) =~= Seq::<Seq<char>>::empty());
    }
    while i < ls.len()
        invariant
            i <= ls@.len(),
            lsv == views(ls@),
            (str_views(choices@), str_views(gate_lines@)) == gate_scan(lsv.take(i as int)),
        decreases ls.len() - i,
    {
        proof {
            assert(lsv.take(i + 1).drop_last() =~= lsv.take(i as int));
        }
        let t = trimmed(&ls[i]);
        let mut lc = extract_choices_from_line(&t);
        if lc.len() == 0 {
            if t.len() > 0 {
                let ghost before = str_views(gate_lines@);
                gate_lines.push(string_of(&t));
                proof {
                    assert(str_views(gate_lines@) =~= before.push(t@));
                }
            }
        } else {
            let ghost before = str_views(choices@);
            let ghost added = str_views(lc@);
            choices.append(&mut lc);
            proof {
                assert(str_views(choices@) =~= before + added);
            }
        }
        i = i + 1;
    }
    proof {
        assert(lsv.take(i as int) =~= lsv);
    }
    if choices.len() >= 2 && validate_sequential(&choices) {
        let summary = if gate_lines.len() > 0 {
            gate_lines[gate_lines.len() - 1].clone()
        } else {
            String::new()
        };
        proof {
            if gate_lines@.len() > 0 {
                assert(str_views(gate_lines@).last() == gate_lines@[gate_lines@.len() - 1]@);
            }
        }
        Some((summary, choices))
    } else {
        None
    }
}

// ---------------------------------------------------------------------
// The panel
// ---------------------------------------------------------------------

/// The text shown while a question tool waits for the user.
pub open spec fn waiting_text() -> Seq<char> {
    "사용자 입력 대기 중"@
}

/// Gate alert panel state.
pub struct GateAlertPanel {
    active: bool,
    gate_text: String,
    choices: Vec<String>,
    hooks_active: bool,
    next_steps: Vec<String>,
}

pub ghost struct GateAlertV {
    pub active: bool,
    pub gate_text: Seq<char>,
    pub choices: Seq<Seq<char>>,
    pub hooks_active: bool,
    pub next_steps: Seq<Seq<char>>,
}

impl View for GateAlertPanel {
    type V = GateAlertV;

    closed spec fn view(&self) -> GateAlertV {
        GateAlertV {
            active: self.active,
            gate_text: self.gate_text@,
            choices: str_views(self.choices@),
            hooks_active: self.hooks_active,
            next_steps: str_views(self.next_steps@),
        }
    }
}

/// The panel with no gate held.
pub open spec fn cleared(p: GateAlertV) -> GateAlertV {
    GateAlertV { active: false, gate_text: Seq::empty(), choices: Seq::empty(), ..p }
}

pub open spec fn activated(p: GateAlertV, text: Seq<char>, choices: Seq<Seq<char>>) -> GateAlertV {
    GateAlertV { active: true, gate_text: text, choices: choices, ..p }
}

/// Esc dismisses a held gate; other keys leave the panel as it is.
pub open spec fn gate_on_key(p: GateAlertV, k: KeyCode) -> GateAlertV {
    if k == KeyCode::Esc {
        cleared(p)
    } else {
        p
    }
}

/// How the panel answers an event.
pub open spec fn gate_on_event(p: GateAlertV, e: AppEvent) -> GateAlertV {
    match e {
        AppEvent::TurnCompleted { last_message } => match detect_gate_spec(last_message@) {
            Some((t, c)) => activated(p, t, c),
            None => cleared(p),
        },
        AppEvent::ToolUseCompleted { tool_name } => if tool_name@ == "AskUserQuestion"@ && !p.active {
            activated(p, waiting_text(), Seq::empty())
        } else {
            p
        },
        AppEvent::FlowStateChanged(_) => cleared(p),
        AppEvent::HooksServerStarted { .. } => GateAlertV { hooks_active: true, ..p },
        AppEvent::HooksServerFailed { .. } => GateAlertV { hooks_active: false, ..p },
        AppEvent::SessionSummaryChanged(s) => GateAlertV { next_steps: s@.next_steps, ..p },
        _ => p,
    }
}

impl GateAlertPanel {
    pub fn new() -> (r: Self)
        ensures
            r@ == (GateAlertV {
                active: false,
                gate_text: Seq::empty(),
                choices: Seq::empty(),
                hooks_active: false,
                next_steps: Seq::empty(),
            }),
    {
        let r = GateAlertPanel {
            active: false,
            gate_text: String::new(),
            choices: Vec::new(),
            hooks_active: false,
            next_steps: Vec::new(),
        };
        assert(r@.choices =~= Seq::<Seq<char>>::empty());
        assert(r@.next_steps =~= Seq::<Seq<char>>::empty());
        r
    }

    pub fn set_hooks_active(&mut self, active: bool)
        ensures
            final(self)@ == (GateAlertV { hooks_active: active, ..old(self)@ }),
    {
        self.hooks_active = active;
    }

    pub fn set_next_steps(&mut self, steps: Vec<String>)
        ensures
            final(self)@ == (GateAlertV { next_steps: str_views(steps@), ..old(self)@ }),
    {
        self.next_steps = steps;
    }

    pub fn is_active(&self) -> (r: bool)
        ensures
            r == self@.active,
    {
        self.active
    }

    /// Text of a held gate.
    pub fn gate_text(&self) -> (r: &String)
        ensures
            r@ == self@.gate_text,
    {
        &self.gate_text
    }

    /// Choices of a held gate.
    pub fn choices(&self) -> (r: &Vec<String>)
        ensures
            str_views(r@) == self@.choices,
    {
        &self.choices
    }

    /// Whether the hook endpoint runs, so that gates can be seen at all.
    pub fn hooks_active(&self) -> (r: bool)
        ensures
            r == self@.hooks_active,
    {
        self.hooks_active
    }

    /// The next steps of the session summary, shown while hooks are off.
    pub fn next_steps(&self) -> (r: &Vec<String>)
        ensures
            str_views(r@) == self@.next_steps,
    {
        &self.next_steps
    }

    pub fn clear_gate(&mut self)
        ensures
            final(self)@ == cleared(old(self)@),
    {
        self.active = false;
        self.gate_text = String::new();
        self.choices = Vec::new();
        assert(self@.choices =~= Seq::<Seq<char>>::empty());
    }

    pub fn activate_gate(&mut self, text: String, choices: Vec<String>)
        ensures
            final(self)@ == activated(old(self)@, text@, str_views(choices@)),
    {
        self.active = true;
        self.gate_text = text;
        self.choices = choices;
    }

    /// Esc dismisses a held gate; no key yields an action.
    pub fn handle_key(&mut self, key: KeyEvent) -> (r: Option<Action>)
        ensures
            r is None,
            final(self)@ == gate_on_key(old(self)@, key.code),
    {
        if key.code == KeyCode::Esc {
            self.clear_gate();
        }
        None
    }

    pub fn handle_event(&mut self, event: &AppEvent)
        ensures
            final(self)@ == gate_on_event(old(self)@, *event),
    {
        match event {
            AppEvent::TurnCompleted { last_message } => {
                match detect_gate(last_message.as_str()) {
                    Some((text, choices)) => self.activate_gate(text, choices),
                    None => self.clear_gate(),
                }
            },
            AppEvent::ToolUseCompleted { tool_name } => {
                if eq_chars(&chars_of(tool_name.as_str()), &chars_of("AskUserQuestion"))
                    && !self.active {
                    let t = owned("사용자 입력 대기 중");
                    let none: Vec<String> = Vec::new();
                    assert(str_views(none@) =~= Seq::<Seq<char>>::empty());
                    self.activate_gate(t, none);
                }
            },
            AppEvent::FlowStateChanged(_) => {
                self.clear_gate();
            },
            AppEvent::HooksServerStarted { .. } => {
                self.hooks_active = true;
            },
            AppEvent::HooksServerFailed { .. } => {
                self.hooks_active = false;
            },
            AppEvent::SessionSummaryChanged(summary) => {
                self.next_steps = clone_strings(&summary.next_steps);
            },
            _ => {},
        }
    }
}

impl Default for GateAlertPanel {
    fn default() -> (r: Self)
        ensures
            r@ == (GateAlertV {
                active: false,
                gate_text: Seq::empty(),
                choices: Seq::empty(),
                hooks_active: false,
                next_steps: Seq::empty(),
            }),
    {
        GateAlertPanel::new()
    }
}

// ---------------------------------------------------------------------
// Laws
// ---------------------------------------------------------------------

/// A held gate is dismissed by Esc and by any change of the flow state;
/// a finished turn whose message is no gate clears it too.
pub proof fn lemma_gate_dismissed(p: GateAlertV, state: FlowState, msg: String)
    ensures
        !gate_on_key(p, KeyCode::Esc).active,
        !gate_on_event(p, AppEvent::FlowStateChanged(state)).active,
        detect_gate_spec(msg@) is None ==> !gate_on_event(p, AppEvent::TurnCompleted { last_message: msg }).active,
        detect_gate_spec(msg@) matches Some((t, c)) ==> gate_on_event(p, AppEvent::TurnCompleted { last_message: msg })
            == activated(p, t, c),
{
}

// ---------------------------------------------------------------------
// What the panel shows
// ---------------------------------------------------------------------

/// The panel's text: a hint while the hooks are off (with the session's
/// next steps), a waiting line while no gate is held, else the held gate with
/// its text and choices.
pub open spec fn gate_lines(p: GateAlertV) -> Seq<Seq<SpanV>> {
    if !p.hooks_active {
        seq![
            Seq::<SpanV>::empty(),
            seq![sv(Tone::Dim, "  게이트 감지를 위해"@)],
            seq![sv(Tone::Dim, "  hooks 설정이 필요합니다"@)],
        ] + if p.next_steps.len() > 0 {
            seq![Seq::<SpanV>::empty(), seq![sv(Tone::Dim, "  Next Steps:"@)]] + indented("    "@, Tone::Dim, p.next_steps)
        } else {
            Seq::empty()
        }
    } else if !p.active {
        seq![seq![sv(Tone::Dim, "  대기 중..."@)]]
    } else {
        seq![seq![sv(Tone::GateAlert, "  ▶ GATE "@)], Seq::<SpanV>::empty()] + (if p.gate_text.len() > 0 {
            seq![seq![sv(Tone::Bold, "  "@ + p.gate_text)], Seq::<SpanV>::empty()]
        } else {
            Seq::empty()
        }) + indented("  "@, Tone::GateAlert, p.choices) + (if p.choices.len() == 0 {
            seq![seq![sv(Tone::Active, "  사용자 입력 대기 중"@)]]
        } else {
            Seq::empty()
        })
    }
}

impl GateAlertPanel {
    /// The panel's text lines.
    pub fn lines(&self) -> (r: Vec<Vec<Span>>)
        ensures
            lines_view(r@) == gate_lines(self@),
    {
        let mut out: Vec<Vec<Span>> = Vec::new();
        assert(lines_view(out@) =~= Seq::<Seq<SpanV>>::empty());
        if !self.hooks_active {
            push_line(&mut out, blank());
            push_line(&mut out, line1(span(Tone::Dim, "  게이트 감지를 위해")));
            push_line(&mut out, line1(span(Tone::Dim, "  hooks 설정이 필요합니다")));
            let ghost head = lines_view(out@);
            if self.next_steps.len() > 0 {
                push_line(&mut out, blank());
                push_line(&mut out, line1(span(Tone::Dim, "  Next Steps:")));
                push_indented(&mut out, "    ", Tone::Dim, &self.next_steps);
                assert(lines_view(out@) =~= head + (seq![Seq::<SpanV>::empty(), seq![sv(Tone::Dim, "  Next Steps:"@)]]
                    + indented("    "@, Tone::Dim, self@.next_steps)));
            } else {
                assert(lines_view(out@) =~= head + Seq::<Seq<SpanV>>::empty());
            }
            return out;
        }
        if !self.active {
            push_line(&mut out, line1(span(Tone::Dim, "  대기 중...")));
            return out;
        }
        push_line(&mut out, line1(span(Tone::GateAlert, "  ▶ GATE ")));
        push_line(&mut out, blank());
        let ghost a = lines_view(out@);
        let text = chars_of(self.gate_text.as_str());
        if text.len() > 0 {
            push_line(&mut out, line1(span_of(Tone::Bold, &cat_chars("  ", &text))));
            push_line(&mut out, blank());
        }
        let ghost b = lines_view(out@);
        assert(b =~= a + (if self@.gate_text.len() > 0 {
            seq![seq![sv(Tone::Bold, "  "@ + self@.gate_text)], Seq::<SpanV>::empty()]
        } else {
            Seq::<Seq<SpanV>>::empty()
        }));
        push_indented(&mut out, "  ", Tone::GateAlert, &self.choices);
        let ghost c = lines_view(out@);
        if self.choices.len() == 0 {
            push_line(&mut out, line1(span(Tone::Active, "  사용자 입력 대기 중")));
        }
        assert(lines_view(out@) =~= c + (if self@.choices.len() == 0 {
            seq![seq![sv(Tone::Active, "  사용자 입력 대기 중"@)]]
        } else {
            Seq::<Seq<SpanV>>::empty()
        }));
        out
    }
}

} // verus!
