//! What the panels show, as text: lines of spans, each span with the tone
//! the terminal gives it. Drawing them is left to the terminal layer.

use vstd::prelude::*;

use crate::text::{chars_of, decimal, push_all, push_str, str_views, string_of};

verus! {

/// How a span is drawn.
#[derive(Debug, Clone, Copy, PartialEq, Eq, Structural)]
pub enum Tone {
    Plain,
    Dim,
    Bold,
    Active,
    Done,
    Waiting,
    Skipped,
    Timeout,
    Highlight,
    Timestamp,
    GateAlert,
    Staged,
    Unstaged,
    Untracked,
    Conflict,
    Cyan,
    CyanBold,
    Yellow,
    Green,
    Red,
    /// A key binding in the help text.
    Key,
}

/// A piece of text and its tone.
#[derive(Debug, Clone)]
pub struct Span {
    pub tone: Tone,
    pub text: String,
}

pub ghost struct SpanV {
    pub tone: Tone,
    pub text: Seq<char>,
}

impl View for Span {
    type V = SpanV;

    open spec fn view(&self) -> SpanV {
        SpanV { tone: self.tone, text: self.text@ }
    }
}

pub open spec fn sv(tone: Tone, text: Seq<char>) -> SpanV {
    SpanV { tone, text }
}

pub open spec fn line_view(l: Seq<Span>) -> Seq<SpanV> {
    l.map_values(|s: Span| s@)
}

pub open spec fn lines_view(v: Seq<Vec<Span>>) -> Seq<Seq<SpanV>> {
    v.map_values(|l: Vec<Span>| line_view(l@))
}

/// A span of the given text.
pub fn span(tone: Tone, text: &str) -> (r: Span)
    ensures
        r@ == sv(tone, text@),
{
    Span { tone, text: text.to_string() }
}

/// A span of the given characters.
pub fn span_of(tone: Tone, text: &[char]) -> (r: Span)
    ensures
        r@ == sv(tone, text@),
{
    Span { tone, text: string_of(text) }
}

/// A line of one span.
pub fn line1(s: Span) -> (r: Vec<Span>)
    ensures
        line_view(r@) == seq![s@],
{
    let mut v: Vec<Span> = Vec::new();
    v.push(s);
    assert(line_view(v@) =~= seq![s@]);
    v
}

/// A line of two spans.
pub fn line2(a: Span, b: Span) -> (r: Vec<Span>)
    ensures
        line_view(r@) == seq![a@, b@],
{
    let mut v: Vec<Span> = Vec::new();
    v.push(a);
    v.push(b);
    assert(line_view(v@) =~= seq![a@, b@]);
    v
}

/// A line of three spans.
pub fn line3(a: Span, b: Span, c: Span) -> (r: Vec<Span>)
    ensures
        line_view(r@) == seq![a@, b@, c@],
{
    let mut v: Vec<Span> = Vec::new();
    v.push(a);
    v.push(b);
    v.push(c);
    assert(line_view(v@) =~= seq![a@, b@, c@]);
    v
}

/// A line of four spans.
pub fn line4(a: Span, b: Span, c: Span, d: Span) -> (r: Vec<Span>)
    ensures
        line_view(r@) == seq![a@, b@, c@, d@],
{
    let mut v: Vec<Span> = Vec::new();
    v.push(a);
    v.push(b);
    v.push(c);
    v.push(d);
    assert(line_view(v@) =~= seq![a@, b@, c@, d@]);
    v
}

/// An empty line.
pub fn blank() -> (r: Vec<Span>)
    ensures
        line_view(r@) == Seq::<SpanV>::empty(),
{
    let v: Vec<Span> = Vec::new();
    assert(line_view(v@) =~= Seq::<SpanV>::empty());
    v
}

/// Append a line, keeping the view in step.
pub fn push_line(out: &mut Vec<Vec<Span>>, l: Vec<Span>)
    ensures
        lines_view(final(out)@) == lines_view(old(out)@).push(line_view(l@)),
{
    let ghost lv = line_view(l@);
    out.push(l);
    assert(lines_view(out@) =~= lines_view(old(out)@).push(lv));
}

/// `a` followed by `b`.
pub fn cat2(a: &str, b: &str) -> (r: Vec<char>)
    ensures
        r@ == a@ + b@,
{
    let mut v = chars_of(a);
    push_str(&mut v, b);
    v
}

/// `a`, `b` and `c` in a row.
pub fn cat3(a: &str, b: &str, c: &str) -> (r: Vec<char>)
    ensures
        r@ == a@ + b@ + c@,
{
    let mut v = chars_of(a);
    push_str(&mut v, b);
    push_str(&mut v, c);
    v
}

/// `prefix` followed by the characters `b`.
pub fn cat_chars(prefix: &str, b: &[char]) -> (r: Vec<char>)
    ensures
        r@ == prefix@ + b@,
{
    let mut v = chars_of(prefix);
    push_all(&mut v, b);
    v
}

/// Decimal digits of a `u128`, as `u128::to_string` gives them.
pub fn decimal_u128(n: u128) -> (r: Vec<char>)
    ensures
        r@ == decimal(n as nat),
    decreases n,
{
    let digits = chars_of("0123456789");
    proof {
        reveal_strlit("0123456789");
    }
    if n < 10 {
        let mut r: Vec<char> = Vec::new();
        r.push(digits[n as usize]);
        r
    } else {
        let mut r = decimal_u128(n / 10);
        r.push(digits[(n % 10) as usize]);
        r
    }
}

/// `format!("{:<w}", s)`: `s` padded with spaces on the right to `w` characters.
pub open spec fn pad_right(s: Seq<char>, w: nat) -> Seq<char> {
    if s.len() >= w {
        s
    } else {
        s + Seq::new((w - s.len()) as nat, |i: int| ' ')
    }
}

pub fn pad_right_chars(s: &str, w: usize) -> (r: Vec<char>)
    ensures
        r@ == pad_right(s@, w as nat),
{
    let mut v = chars_of(s);
    let ghost orig = v@;
    if v.len() >= w {
        return v;
    }
    let n = v.len();
    while v.len() < w
        invariant
            n <= v@.len() <= w,
            n == orig.len(),
            v@ == orig + Seq::new((v@.len() - n) as nat, |i: int| ' '),
        decreases w - v@.len(),
    {
        v.push(' ');
        assert(v@ =~= orig + Seq::new((v@.len() - n) as nat, |i: int| ' '));
    }
    v
}

/// One line per item: the prefix and the item, in one tone.
pub open spec fn indented(prefix: Seq<char>, tone: Tone, items: Seq<Seq<char>>) -> Seq<Seq<SpanV>> {
    items.map_values(|t: Seq<char>| seq![sv(tone, prefix + t)])
}

/// Append one line per item.
pub fn push_indented(out: &mut Vec<Vec<Span>>, prefix: &str, tone: Tone, items: &Vec<String>)
    ensures
        lines_view(final(out)@) == lines_view(old(out)@) + indented(prefix@, tone, str_views(items@)),
{
    let ghost start = lines_view(out@);
    let mut i: usize = 0;
    while i < items.len()
        invariant
            i <= items@.len(),
            lines_view(out@) == start + indented(prefix@, tone, str_views(items@.take(i as int))),
        decreases items.len() - i,
    {
        let l = line1(span_of(tone, &cat2(prefix, items[i].as_str())));
        push_line(out, l);
        proof {
            assert(str_views(items@.take(i + 1)) =~= str_views(items@.take(i as int)).push(items@[i as int]@));
            assert(indented(prefix@, tone, str_views(items@.take(i + 1))) =~= indented(
                prefix@,
                tone,
                str_views(items@.take(i as int)),
            ).push(seq![sv(tone, prefix@ + items@[i as int]@)]));
            assert(lines_view(out@) =~= start + indented(prefix@, tone, str_views(items@.take(i + 1))));
        }
        i = i + 1;
    }
    assert(items@.take(i as int) =~= items@);
}

/// Append all lines of `more`.
pub fn append_lines(out: &mut Vec<Vec<Span>>, more: Vec<Vec<Span>>)
    ensures
        lines_view(final(out)@) == lines_view(old(out)@) + lines_view(more@),
{
    let ghost mv = lines_view(more@);
    let mut more = more;
    out.append(&mut more);
    assert(lines_view(out@) =~= lines_view(old(out)@) + mv);
}

} // verus!
