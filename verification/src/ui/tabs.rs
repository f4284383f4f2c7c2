//! The tab bar: the brand, then one tab per open note with a dirty marker and
//! a close button; where each tab and button lies, for the mouse.
use vstd::prelude::*;

use crate::config::theme::{parse_color_spec, Theme};
use crate::text::chars_of;
use crate::ui::styled::{bold, fg_style, line_view, plain, push_str, repeat, spanv, Span, SpanV, Style};
use vstd::string::*;

verus! {

/// How many bytes the UTF-8 encoding of `c` takes.
pub open spec fn utf8_width(c: char) -> nat {
    let u = c as u32;
    if u < 0x80 {
        1
    } else if u < 0x800 {
        2
    } else if u < 0x10000 {
        3
    } else {
        4
    }
}

/// How many bytes the UTF-8 encoding of `s` takes (what `str::len` gives).
pub open spec fn utf8_len(s: Seq<char>) -> nat
    decreases s.len(),
{
    if s.len() == 0 {
        0
    } else {
        utf8_len(s.drop_last()) + utf8_width(s.last())
    }
}

/// The byte length of `s`.
pub fn byte_len(s: &str) -> (r: u64)
    requires
        s@.len() < 0x1000_0000_0000_0000,
    ensures
        r == utf8_len(s@),
        r <= 4 * s@.len(),
{
    let v = chars_of(s);
    let mut n: u64 = 0;
    let mut i: usize = 0;
    while i < v.len()
        invariant
            i <= v.len(),
            v@ == s@,
            v@.len() < 0x1000_0000_0000_0000,
            n == utf8_len(v@.take(i as int)),
            n <= 4 * i,
        decreases v.len() - i,
    {
        assert(v@.take(i + 1).drop_last() =~= v@.take(i as int));
        let u = v[i] as u32;
        let w: u64 = if u < 0x80 {
            1
        } else if u < 0x800 {
            2
        } else if u < 0x10000 {
            3
        } else {
            4
        };
        n = n + w;
        i = i + 1;
    }
    assert(v@.take(v@.len() as int) =~= v@);
    n
}

/// Where one tab lies on its row: clicking in `[x_start, close_x_start)`
/// switches to it, in `[close_x_start, close_x_end)` closes it.
#[derive(Clone, Copy, Debug, PartialEq, Eq, Structural)]
pub struct TabRect {
    pub x_start: u16,
    pub close_x_start: u16,
    pub close_x_end: u16,
    pub y: u16,
}

/// How many columns `ratatui` gives the text `s` on screen (`Span::width`,
/// which measures by the Unicode width tables).
pub uninterp spec fn display_width(s: Seq<char>) -> nat;

/// `ratatui::text::Span::width` of the text `s`: the columns it takes on
/// screen. What the width tables give is named, not stated.
#[verifier::external_body]
fn text_width(s: &str) -> (r: usize)
    ensures
        r == display_width(s@),
{
    ratatui::text::Span::raw(s).width()
}

/// The text before the tabs: ` Mimic `, a run of slashes, a space.
pub open spec fn brand_text() -> Seq<char> {
    " Mimic "@ + repeat('/', 19) + seq![' ']
}

/// How many columns the part before the tabs takes.
pub open spec fn brand_width() -> int {
    display_width(brand_text()) as int
}

/// The dirty marker `●` between two spaces, or three spaces.
pub open spec fn marker_text(dirty: Seq<bool>, i: int) -> Seq<char> {
    if i < dirty.len() && dirty[i] {
        seq![' ', '●', ' ']
    } else {
        seq![' ', ' ', ' ']
    }
}

/// How many columns the name part of tab `i` takes: the marker, then the
/// name.
pub open spec fn name_width(names: Seq<Seq<char>>, dirty: Seq<bool>, i: int) -> int {
    display_width(marker_text(dirty, i) + names[i]) as int
}

/// How many columns the close button ` ✕ ` takes.
pub open spec fn close_width() -> int {
    display_width(seq![' ', '✕', ' ']) as int
}

/// How many columns the separator `│` after each tab takes.
pub open spec fn sep_width() -> int {
    display_width(seq!['│']) as int
}

/// Where tab `i` starts: after the brand and the tabs before it, each with its
/// close button and a separator.
pub open spec fn tab_start(names: Seq<Seq<char>>, dirty: Seq<bool>, x0: int, i: int) -> int
    decreases i,
{
    if i <= 0 {
        x0 + brand_width()
    } else {
        tab_start(names, dirty, x0, i - 1) + name_width(names, dirty, i - 1) + close_width() + sep_width()
    }
}

/// The rectangle of tab `i`, in screen columns.
pub open spec fn tab_rect(names: Seq<Seq<char>>, dirty: Seq<bool>, x0: int, y: u16, i: int) -> TabRect {
    let s = tab_start(names, dirty, x0, i);
    let c = s + name_width(names, dirty, i);
    TabRect { x_start: s as u16, close_x_start: c as u16, close_x_end: (c + close_width()) as u16, y }
}

/// The brand at the left of the bar: ` Mimic ` in bold header color, a run
/// of slashes in the border color, a space; all on the background.
pub open spec fn brand_spans(t: Theme) -> Seq<SpanV> {
    let bg = parse_color_spec(t.bg@);
    let header = parse_color_spec(t.header@);
    let dim = parse_color_spec(t.border@);
    seq![
        spanv(" Mimic "@, bold(Style { bg: Some(bg), ..fg_style(header) })),
        spanv(repeat('/', 19), Style { bg: Some(bg), ..fg_style(dim) }),
        spanv(seq![' '], Style { bg: Some(bg), ..plain() }),
    ]
}

/// The spans of tab `i`: the dirty marker or a space between two spaces and
/// the name, the close button ` ✕ `, a separator. The active tab is drawn
/// on the active tab color in bold, the others in the inactive color.
pub open spec fn tab_spans(names: Seq<Seq<char>>, dirty: Seq<bool>, active: int, t: Theme, i: int) -> Seq<SpanV> {
    let bg = parse_color_spec(t.bg@);
    let accent = parse_color_spec(t.tab_active@);
    let inactive = parse_color_spec(t.tab_inactive@);
    let dim = parse_color_spec(t.border@);
    let marker = if i < dirty.len() && dirty[i] {
        seq![' ', '●', ' ']
    } else {
        seq![' ', ' ', ' ']
    };
    let (style, close) = if i == active {
        (bold(Style { bg: Some(accent), ..fg_style(bg) }), Style { bg: Some(accent), ..fg_style(bg) })
    } else {
        (Style { bg: Some(bg), ..fg_style(inactive) }, Style { bg: Some(bg), ..fg_style(dim) })
    };
    seq![
        spanv(marker + names[i], style),
        spanv(seq![' ', '✕', ' '], close),
        spanv(seq!['│'], Style { bg: Some(bg), ..fg_style(dim) }),
    ]
}

/// The spans of the first `n` tabs.
pub open spec fn tabs_spans(names: Seq<Seq<char>>, dirty: Seq<bool>, active: int, t: Theme, n: int) -> Seq<SpanV>
    decreases n,
{
    if n <= 0 {
        seq![]
    } else {
        tabs_spans(names, dirty, active, t, n - 1) + tab_spans(names, dirty, active, t, n - 1)
    }
}

/// The spans of the whole bar.
pub open spec fn bar_spans(names: Seq<Seq<char>>, dirty: Seq<bool>, active: int, t: Theme) -> Seq<SpanV> {
    brand_spans(t) + tabs_spans(names, dirty, active, t, names.len() as int)
}

proof fn lemma_tabs_spans_len(names: Seq<Seq<char>>, dirty: Seq<bool>, active: int, t: Theme, n: int)
    requires
        n >= 0,
    ensures
        tabs_spans(names, dirty, active, t, n).len() == 3 * n,
    decreases n,
{
    if n > 0 {
        lemma_tabs_spans_len(names, dirty, active, t, n - 1);
    }
}

/// The tab bar of the notes `tab_names` (those with a set flag in
/// `dirty_flags` have unsaved changes), `active` the active one.
pub struct TabBar<'a> {
    pub tab_names: Vec<&'a str>,
    pub active: usize,
    pub dirty_flags: Vec<bool>,
    pub theme: &'a Theme,
}

/// The names of the tabs.
pub open spec fn names_view(v: Seq<&str>) -> Seq<Seq<char>> {
    v.map_values(|s: &str| s@)
}

impl<'a> TabBar<'a> {
    /// The rectangles of the tabs on a bar that starts at column `x0` of row
    /// `y`, in screen columns, and how many columns the bar uses; none when
    /// the bar would reach past the last column a `u16` can number.
    pub fn rects(&self, x0: u16, y: u16) -> (r: Option<(Vec<TabRect>, u16)>)
        ensures
            ({
                let names = names_view(self.tab_names@);
                let end = tab_start(names, self.dirty_flags@, x0 as int, self.tab_names@.len() as int);
                match r {
                    Some((rs, used)) => {
                        &&& end <= u16::MAX
                        &&& rs@.len() == self.tab_names@.len()
                        &&& forall|i: int|
                            0 <= i < rs@.len() ==> #[trigger] rs@[i] == tab_rect(names, self.dirty_flags@, x0 as int, y, i)
                        &&& used == end - x0
                    },
                    None => end > u16::MAX,
                }
            }),
    {
        let ghost names = names_view(self.tab_names@);
        let ghost dirty = self.dirty_flags@;
        let n = self.tab_names.len();
        proof {
            lemma_tab_start_mono(names, dirty, x0 as int, n as int);
            reveal_strlit(" Mimic /////////////////// ");
            reveal_strlit(" Mimic ");
            reveal_strlit(" ✕ ");
            reveal_strlit("│");
            assert(" Mimic /////////////////// "@ =~= brand_text());
            assert(" ✕ "@ =~= seq![' ', '✕', ' ']);
            assert("│"@ =~= seq!['│']);
        }
        let bw = text_width(" Mimic /////////////////// ");
        let cw = text_width(" ✕ ");
        let sw = text_width("│");
        assert(tab_start(names, dirty, x0 as int, 0) == x0 + bw);
        assert(tab_start(names, dirty, x0 as int, 0) <= tab_start(names, dirty, x0 as int, n as int));
        if bw > 0xffff {
            return None;
        }
        let mut x: u64 = x0 as u64 + bw as u64;
        if x > 0xffff {
            return None;
        }
        let mut rects: Vec<TabRect> = Vec::new();
        let mut i: usize = 0;
        while i < n
            invariant
                i <= n,
                n == self.tab_names@.len(),
                names == names_view(self.tab_names@),
                dirty == self.dirty_flags@,
                cw == close_width(),
                sw == sep_width(),
                x == tab_start(names, dirty, x0 as int, i as int),
                x <= 0xffff,
                forall|k: int| 0 <= k <= n ==> tab_start(names, dirty, x0 as int, k) <= tab_start(names, dirty, x0 as int, n as int),
                rects@.len() == i,
                forall|k: int| 0 <= k < i ==> #[trigger] rects@[k] == tab_rect(names, dirty, x0 as int, y, k),
            decreases n - i,
        {
            assert(names[i as int] == self.tab_names@[i as int]@);
            let dirty_i = i < self.dirty_flags.len() && self.dirty_flags[i];
            let mut part = String::from_str(if dirty_i {
                " ● "
            } else {
                "   "
            });
            proof {
                reveal_strlit(" ● ");
                reveal_strlit("   ");
            }
            push_str(&mut part, self.tab_names[i]);
            assert(part@ =~= marker_text(dirty, i as int) + names[i as int]);
            let w = text_width(part.as_str());
            assert(w == name_width(names, dirty, i as int));
            assert(tab_start(names, dirty, x0 as int, i + 1) == x + w + cw + sw);
            if w > 0xffff || cw > 0xffff || sw > 0xffff {
                return None;
            }
            let c = x + w as u64;
            let next = c + cw as u64 + sw as u64;
            assert(tab_start(names, dirty, x0 as int, i + 1) == next);
            if next > 0xffff {
                return None;
            }
            rects.push(TabRect { x_start: x as u16, close_x_start: c as u16, close_x_end: (c + cw as u64) as u16, y });
            x = next;
            i = i + 1;
        }
        Some((rects, (x - x0 as u64) as u16))
    }

    /// The spans of the bar: the brand and the tabs, the active tab on the
    /// active tab color, the others dimmer.
    pub fn spans(&self) -> (r: Vec<Span>)
        ensures
            r@.len() == 3 + 3 * self.tab_names@.len(),
            line_view(r@) == bar_spans(names_view(self.tab_names@), self.dirty_flags@, self.active as int, *self.theme),
    {
        let bg = Theme::parse_color(self.theme.bg.as_str());
        let accent = Theme::parse_color(self.theme.tab_active.as_str());
        let inactive = Theme::parse_color(self.theme.tab_inactive.as_str());
        let header = Theme::parse_color(self.theme.header.as_str());
        let dim = Theme::parse_color(self.theme.border.as_str());
        let ghost names = names_view(self.tab_names@);
        let ghost t = *self.theme;
        let mut spans: Vec<Span> = Vec::new();
        spans.push(Span { text: String::from_str(" Mimic "), style: Style::fg(header).on(bg).bold() });
        spans.push(Span { text: String::from_str("///////////////////"), style: Style::fg(dim).on(bg) });
        spans.push(Span { text: String::from_str(" "), style: Style::plain().on(bg) });
        proof {
            reveal_strlit(" Mimic ");
            reveal_strlit("///////////////////");
            reveal_strlit(" ");
            assert(spans@[1].text@ =~= repeat('/', 19));
            assert(spans@[2].text@ =~= seq![' ']);
            assert(line_view(spans@) =~= brand_spans(t));
        }
        let mut i: usize = 0;
        while i < self.tab_names.len()
            invariant
                i <= self.tab_names@.len(),
                names == names_view(self.tab_names@),
                t == *self.theme,
                bg == parse_color_spec(t.bg@),
                accent == parse_color_spec(t.tab_active@),
                inactive == parse_color_spec(t.tab_inactive@),
                dim == parse_color_spec(t.border@),
                line_view(spans@) == brand_spans(t) + tabs_spans(names, self.dirty_flags@, self.active as int, t, i as int),
            decreases self.tab_names.len() - i,
        {
            let dirty = i < self.dirty_flags.len() && self.dirty_flags[i];
            let mut name = String::from_str(if dirty {
                " ● "
            } else {
                "   "
            });
            push_str(&mut name, self.tab_names[i]);
            let active = i == self.active;
            let style = if active {
                Style::fg(bg).on(accent).bold()
            } else {
                Style::fg(inactive).on(bg)
            };
            let close_style = if active {
                Style::fg(bg).on(accent)
            } else {
                Style::fg(dim).on(bg)
            };
            let ghost before = line_view(spans@);
            proof {
                reveal_strlit(" ● ");
                reveal_strlit("   ");
                assert(names[i as int] == self.tab_names@[i as int]@);
                assert(name@ =~= (if dirty {
                    seq![' ', '●', ' ']
                } else {
                    seq![' ', ' ', ' ']
                }) + names[i as int]);
            }
            spans.push(Span { text: name, style });
            spans.push(Span { text: String::from_str(" ✕ "), style: close_style });
            spans.push(Span { text: String::from_str("│"), style: Style::fg(dim).on(bg) });
            proof {
                reveal_strlit(" ✕ ");
                reveal_strlit("│");
                let ts = tab_spans(names, self.dirty_flags@, self.active as int, t, i as int);
                let n0 = before.len() as int;
                assert(line_view(spans@).len() == n0 + 3);
                assert(spans@[n0 + 1].text@ =~= seq![' ', '✕', ' ']);
                assert(spans@[n0 + 2].text@ =~= seq!['│']);
                assert(line_view(spans@)[n0] == ts[0]);
                assert(line_view(spans@)[n0 + 1] == ts[1]);
                assert(line_view(spans@)[n0 + 2] == ts[2]);
                assert(forall|k: int| 0 <= k < n0 ==> line_view(spans@)[k] == before[k]);
                assert(line_view(spans@) =~= before + tab_spans(names, self.dirty_flags@, self.active as int, t, i as int));
                assert(tabs_spans(names, self.dirty_flags@, self.active as int, t, i + 1) =~= tabs_spans(names, self.dirty_flags@, self.active as int, t, i as int) + tab_spans(names, self.dirty_flags@, self.active as int, t, i as int));
            }
            i = i + 1;
        }
        proof {
            lemma_tabs_spans_len(names, self.dirty_flags@, self.active as int, t, i as int);
        }
        spans
    }
}

proof fn lemma_tab_start_mono(names: Seq<Seq<char>>, dirty: Seq<bool>, x0: int, n: int)
    requires
        n >= 0,
    ensures
        forall|k: int| 0 <= k <= n ==> tab_start(names, dirty, x0, k) <= tab_start(names, dirty, x0, n),
    decreases n,
{
    if n > 0 {
        lemma_tab_start_mono(names, dirty, x0, n - 1);
        assert(name_width(names, dirty, n - 1) >= 0);
        assert(close_width() >= 0 && sep_width() >= 0);
    }
}

} // verus!
