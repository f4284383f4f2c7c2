//! What the editor pane draws in Insert mode: a gutter of line numbers and
//! the wrapped rows, the selection on the accent color, scrolled so that the
//! cursor stays in view.
use vstd::prelude::*;
use vstd::string::*;

use crate::config::theme::Color;
use crate::editor::{decimal, push_decimal};
use crate::text::{chars_of, string_of_range};
use crate::ui::styled::{fg_style, line_view, push_repeat, repeat, spanv, Span, SpanV, Style};
use crate::ui::wrap::WrappedLine;

verus! {

/// How many columns the line numbers take: the digits of the number of
/// lines (at least one line), and never fewer than two.
pub open spec fn gutter_digits_spec(n_lines: nat) -> nat {
    let d = decimal(if n_lines > 0 {
        n_lines
    } else {
        1
    }).len();
    if d > 2 {
        d
    } else {
        2
    }
}

/// How many columns the line numbers of `n_lines` lines take.
pub fn gutter_digits(n_lines: usize) -> (r: usize)
    ensures
        r == gutter_digits_spec(n_lines as nat),
{
    let n: u64 = if n_lines > 0 {
        n_lines as u64
    } else {
        1
    };
    let mut s = String::new();
    push_decimal(&mut s, n);
    let d = s.as_str().unicode_len();
    if d > 2 {
        d
    } else {
        2
    }
}

/// The editor's scroll offset after a redraw: moved up to a cursor above
/// the view, or down just far enough for a cursor below it (kept as a
/// `u16`, wrapping); unchanged when no row is visible.
pub open spec fn follow_cursor_spec(scroll: u16, cursor_row: int, visible: int) -> u16 {
    if visible > 0 && cursor_row < scroll {
        (cursor_row % 65536) as u16
    } else if visible > 0 && cursor_row >= scroll + visible {
        ((cursor_row + 1 - visible) % 65536) as u16
    } else {
        scroll
    }
}

/// The scroll offset that keeps the cursor's row `cursor_row` among the
/// `visible` rows, starting from `scroll`.
pub fn follow_cursor(scroll: u16, cursor_row: usize, visible: usize) -> (r: u16)
    ensures
        r == follow_cursor_spec(scroll, cursor_row as int, visible as int),
{
    if visible > 0 {
        if cursor_row < scroll as usize {
            return (cursor_row % 65536) as u16;
        } else if cursor_row - scroll as usize >= visible {
            return ((cursor_row - visible + 1) % 65536) as u16;
        }
    }
    scroll
}

/// The colors of the editor pane: text, background, line numbers, and the
/// selection's background.
#[derive(Clone, Copy, Debug, PartialEq, Eq, Structural)]
pub struct EditorColors {
    pub fg: Color,
    pub bg: Color,
    pub gutter: Color,
    pub selection: Color,
}

/// `t` after spaces up to `w` characters.
pub open spec fn pad_left(t: Seq<char>, w: int) -> Seq<char> {
    if t.len() < w {
        repeat(' ', (w - t.len()) as nat) + t
    } else {
        t
    }
}

/// The gutter of a row: the line's number right-aligned in `digits`
/// columns and a space on its first row, blanks on the others.
pub open spec fn gutter_text(logical_row: int, first: bool, digits: int) -> Seq<char> {
    if first {
        pad_left(decimal((logical_row + 1) as nat), digits) + seq![' ']
    } else {
        repeat(' ', (digits + 1) as nat)
    }
}

/// The spans of a wrapped row: the gutter in the line-number color, then the
/// text; a selected part is drawn in the background color on the selection
/// color, the text before and after it (when not empty) as usual.
pub open spec fn row_spans_spec(
    logical_row: int,
    first: bool,
    text: Seq<char>,
    highlight: Option<(usize, usize)>,
    digits: int,
    c: EditorColors,
) -> Seq<SpanV> {
    let normal = Style { bg: Some(c.bg), ..fg_style(c.fg) };
    let g = seq![spanv(gutter_text(logical_row, first, digits), Style { bg: Some(c.bg), ..fg_style(c.gutter) })];
    match highlight {
        Some((s, e)) => {
            let before = text.take(s as int);
            let after = text.skip(e as int);
            g + (if before.len() > 0 {
                seq![spanv(before, normal)]
            } else {
                seq![]
            }) + seq![spanv(text.subrange(s as int, e as int), Style { bg: Some(c.selection), ..fg_style(c.bg) })]
                + (if after.len() > 0 {
                seq![spanv(after, normal)]
            } else {
                seq![]
            })
        },
        None => g + seq![spanv(text, normal)],
    }
}

/// The spans of the wrapped row `line` with line numbers `digits` columns
/// wide.
pub fn row_spans(line: &WrappedLine, digits: usize, c: EditorColors) -> (r: Vec<Span>)
    requires
        line.logical_row < usize::MAX,
        digits < usize::MAX,
        line.highlight matches Some((s, e)) ==> s <= e <= line.text@.len(),
    ensures
        line_view(r@) == row_spans_spec(
            line.logical_row as int,
            line.is_first_segment,
            line.text@,
            line.highlight,
            digits as int,
            c,
        ),
{
    let mut gutter = String::new();
    if line.is_first_segment {
        let mut num = String::new();
        push_decimal(&mut num, (line.logical_row + 1) as u64);
        let n = num.as_str().unicode_len();
        if n < digits {
            push_repeat(&mut gutter, ' ', (digits - n) as u128);
        }
        crate::ui::styled::push_str(&mut gutter, num.as_str());
        crate::text::string_push(&mut gutter, ' ');
        assert(num@ == decimal((line.logical_row + 1) as nat));
    } else {
        push_repeat(&mut gutter, ' ', (digits + 1) as u128);
    }
    assert(gutter@ =~= gutter_text(line.logical_row as int, line.is_first_segment, digits as int));
    let normal = Style::fg(c.fg).on(c.bg);
    let mut spans: Vec<Span> = Vec::new();
    spans.push(Span { text: gutter, style: Style::fg(c.gutter).on(c.bg) });
    let ghost g = line_view(spans@);
    match line.highlight {
        Some((s, e)) => {
            let v = chars_of(line.text.as_str());
            let before = string_of_range(&v, 0, s);
            let mid = string_of_range(&v, s, e);
            let after = string_of_range(&v, e, v.len());
            assert(v@.subrange(0, s as int) =~= v@.take(s as int));
            assert(v@.subrange(e as int, v@.len() as int) =~= v@.skip(e as int));
            let ghost b_part: Seq<SpanV> = if before@.len() > 0 {
                seq![spanv(before@, normal)]
            } else {
                seq![]
            };
            if before.as_str().unicode_len() > 0 {
                spans.push(Span { text: before, style: normal });
            }
            assert(line_view(spans@) =~= g + b_part);
            let ghost gb = line_view(spans@);
            spans.push(Span { text: mid, style: Style::fg(c.bg).on(c.selection) });
            let ghost gbm = line_view(spans@);
            assert(gbm =~= gb + seq![spanv(line.text@.subrange(s as int, e as int), Style { bg: Some(c.selection), ..fg_style(c.bg) })]);
            let ghost a_part: Seq<SpanV> = if after@.len() > 0 {
                seq![spanv(after@, normal)]
            } else {
                seq![]
            };
            if after.as_str().unicode_len() > 0 {
                spans.push(Span { text: after, style: normal });
            }
            assert(line_view(spans@) =~= gbm + a_part);
        },
        None => {
            spans.push(Span { text: line.text.clone(), style: normal });
            assert(line_view(spans@) =~= g + seq![spanv(line.text@, normal)]);
        },
    }
    spans
}

} // verus!
