//! The text of the help overlay: the key bindings, one per line.

use vstd::prelude::*;

use crate::ui::view::{blank, line1, line2, lines_view, push_line, span, sv, Span, SpanV, Tone};

verus! {

/// Width of the help overlay, in percent of the screen.
pub const HELP_WIDTH_PCT: u16 = 60;

/// Height of the help overlay, in percent of the screen.
pub const HELP_HEIGHT_PCT: u16 = 70;

/// One key binding: the keys, padded to a column, and what they do.
pub open spec fn help_row(keys: Seq<char>, does: Seq<char>) -> Seq<SpanV> {
    seq![sv(Tone::Key, keys), sv(Tone::Key, does)]
}

/// The help text: a heading, the key bindings, and how to close it.
pub open spec fn help_lines_spec() -> Seq<Seq<SpanV>> {
    seq![
        seq![sv(Tone::Highlight, "  Keyboard Shortcuts"@)],
        Seq::empty(),
        help_row("  Tab / Shift+Tab  "@, "패널 간 순환"@),
        help_row("  Ctrl+h/j/k/l    "@, "방향 네비게이션 (와이드)"@),
        help_row("  j / k  ↑ / ↓    "@, "리스트 스크롤"@),
        help_row("  Enter            "@, "상세 보기 / 산출물 모달"@),
        help_row("  f                "@, "패널 전체화면 확대"@),
        help_row("  Esc              "@, "복귀 / 모달 닫기"@),
        help_row("  r                "@, "수동 새로고침"@),
        help_row("  ?                "@, "이 도움말 표시/닫기"@),
        help_row("  q                "@, "종료"@),
        Seq::empty(),
        seq![sv(Tone::Waiting, "  Press ? or Esc to close"@)],
    ]
}

fn push_row(out: &mut Vec<Vec<Span>>, keys: &str, does: &str)
    ensures
        lines_view(final(out)@) == lines_view(old(out)@).push(help_row(keys@, does@)),
{
    push_line(out, line2(span(Tone::Key, keys), span(Tone::Key, does)));
}

/// The lines of the help overlay.
pub fn help_lines() -> (r: Vec<Vec<Span>>)
    ensures
        lines_view(r@) == help_lines_spec(),
{
    let mut out: Vec<Vec<Span>> = Vec::new();
    push_line(&mut out, line1(span(Tone::Highlight, "  Keyboard Shortcuts")));
    push_line(&mut out, blank());
    push_row(&mut out, "  Tab / Shift+Tab  ", "패널 간 순환");
    push_row(&mut out, "  Ctrl+h/j/k/l    ", "방향 네비게이션 (와이드)");
    push_row(&mut out, "  j / k  ↑ / ↓    ", "리스트 스크롤");
    push_row(&mut out, "  Enter            ", "상세 보기 / 산출물 모달");
    push_row(&mut out, "  f                ", "패널 전체화면 확대");
    push_row(&mut out, "  Esc              ", "복귀 / 모달 닫기");
    push_row(&mut out, "  r                ", "수동 새로고침");
    push_row(&mut out, "  ?                ", "이 도움말 표시/닫기");
    push_row(&mut out, "  q                ", "종료");
    push_line(&mut out, blank());
    push_line(&mut out, line1(span(Tone::Waiting, "  Press ? or Esc to close")));
    proof {
        assert(lines_view(out@) =~= help_lines_spec());
    }
    out
}

} // verus!
