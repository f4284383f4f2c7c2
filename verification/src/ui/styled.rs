//! Styled text as the terminal draws it: spans of text in one style, lines
//! of spans.
use vstd::prelude::*;

use crate::config::theme::Color;
use crate::text::string_push;

verus! {

/// Text modifiers.
#[derive(Clone, Copy, Debug, PartialEq, Eq, Structural)]
pub struct Mods {
    pub bold: bool,
    pub dim: bool,
    pub italic: bool,
    pub underlined: bool,
    pub crossed_out: bool,
}

/// A style: foreground and background colors, each maybe left unset, and
/// modifiers.
#[derive(Clone, Copy, Debug, PartialEq, Eq, Structural)]
pub struct Style {
    pub fg: Option<Color>,
    pub bg: Option<Color>,
    pub mods: Mods,
}

/// No modifier.
pub open spec fn no_mods() -> Mods {
    Mods { bold: false, dim: false, italic: false, underlined: false, crossed_out: false }
}

/// The style with nothing set.
pub open spec fn plain() -> Style {
    Style { fg: None, bg: None, mods: no_mods() }
}

/// The plain style with foreground `c`.
pub open spec fn fg_style(c: Color) -> Style {
    Style { fg: Some(c), ..plain() }
}

/// `s` with bold added.
pub open spec fn bold(s: Style) -> Style {
    Style { mods: Mods { bold: true, ..s.mods }, ..s }
}

/// `s` with dim added.
pub open spec fn dim(s: Style) -> Style {
    Style { mods: Mods { dim: true, ..s.mods }, ..s }
}

/// `s` with italic added.
pub open spec fn italic(s: Style) -> Style {
    Style { mods: Mods { italic: true, ..s.mods }, ..s }
}

/// `s` with underline added.
pub open spec fn underlined(s: Style) -> Style {
    Style { mods: Mods { underlined: true, ..s.mods }, ..s }
}

/// `s` with strike-through added.
pub open spec fn crossed_out(s: Style) -> Style {
    Style { mods: Mods { crossed_out: true, ..s.mods }, ..s }
}

impl Style {
    /// The style with nothing set.
    pub fn plain() -> (r: Style)
        ensures
            r == plain(),
    {
        Style {
            fg: None,
            bg: None,
            mods: Mods { bold: false, dim: false, italic: false, underlined: false, crossed_out: false },
        }
    }

    /// The plain style with foreground `c`.
    pub fn fg(c: Color) -> (r: Style)
        ensures
            r == fg_style(c),
    {
        Style { fg: Some(c), ..Style::plain() }
    }

    /// This style with background `c`.
    pub fn on(self, c: Color) -> (r: Style)
        ensures
            r == (Style { bg: Some(c), ..self }),
    {
        Style { bg: Some(c), ..self }
    }

    /// This style in bold.
    pub fn bold(self) -> (r: Style)
        ensures
            r == bold(self),
    {
        Style { mods: Mods { bold: true, ..self.mods }, ..self }
    }

    /// This style dimmed.
    pub fn dim(self) -> (r: Style)
        ensures
            r == dim(self),
    {
        Style { mods: Mods { dim: true, ..self.mods }, ..self }
    }

    /// This style in italics.
    pub fn italic(self) -> (r: Style)
        ensures
            r == italic(self),
    {
        Style { mods: Mods { italic: true, ..self.mods }, ..self }
    }

    /// This style underlined.
    pub fn underlined(self) -> (r: Style)
        ensures
            r == underlined(self),
    {
        Style { mods: Mods { underlined: true, ..self.mods }, ..self }
    }

    /// This style struck through.
    pub fn crossed_out(self) -> (r: Style)
        ensures
            r == crossed_out(self),
    {
        Style { mods: Mods { crossed_out: true, ..self.mods }, ..self }
    }
}

/// A run of text in one style.
#[derive(Clone)]
pub struct Span {
    pub text: String,
    pub style: Style,
}

/// A span as plain values.
pub struct SpanV {
    pub text: Seq<char>,
    pub style: Style,
}

/// A span as plain values.
pub open spec fn span_view(s: Span) -> SpanV {
    SpanV { text: s.text@, style: s.style }
}

/// A line (a list of spans) as plain values.
pub open spec fn line_view(l: Seq<Span>) -> Seq<SpanV> {
    l.map_values(|s: Span| span_view(s))
}

/// Lines as plain values.
pub open spec fn lines_view(ls: Seq<Vec<Span>>) -> Seq<Seq<SpanV>> {
    ls.map_values(|l: Vec<Span>| line_view(l@))
}

/// The span of `t` in style `s`.
pub open spec fn spanv(t: Seq<char>, s: Style) -> SpanV {
    SpanV { text: t, style: s }
}

/// `c` repeated `n` times.
pub open spec fn repeat(c: char, n: nat) -> Seq<char> {
    Seq::new(n, |i: int| c)
}

/// Appends `c` to `s`, `n` times.
pub fn push_repeat(s: &mut String, c: char, n: u128)
    ensures
        final(s)@ == old(s)@ + repeat(c, n as nat),
{
    let mut i: u128 = 0;
    while i < n
        invariant
            i <= n,
            s@ == old(s)@ + repeat(c, i as nat),
        decreases n - i,
    {
        string_push(s, c);
        assert(old(s)@ + repeat(c, (i + 1) as nat) =~= (old(s)@ + repeat(c, i as nat)).push(c));
        i = i + 1;
    }
}

/// The string of `c` repeated `n` times.
pub fn repeated(c: char, n: u128) -> (r: String)
    ensures
        r@ == repeat(c, n as nat),
{
    let mut s = String::new();
    push_repeat(&mut s, c, n);
    assert(Seq::<char>::empty() + repeat(c, n as nat) =~= repeat(c, n as nat));
    s
}

/// Appends all of `t` to `s`.
pub fn push_str(s: &mut String, t: &str)
    ensures
        final(s)@ == old(s)@ + t@,
{
    let v = crate::text::chars_of(t);
    let mut i: usize = 0;
    while i < v.len()
        invariant
            i <= v.len(),
            v@ == t@,
            s@ == old(s)@ + v@.take(i as int),
        decreases v.len() - i,
    {
        string_push(s, v[i]);
        assert(v@.take(i + 1) =~= v@.take(i as int).push(v@[i as int]));
        assert(old(s)@ + v@.take(i + 1) =~= (old(s)@ + v@.take(i as int)).push(v@[i as int]));
        i = i + 1;
    }
    assert(v@.take(v.len() as int) =~= v@);
}

/// The string `a` followed by `b`.
pub fn concat(a: &str, b: &str) -> (r: String)
    ensures
        r@ == a@ + b@,
{
    let mut s = String::new();
    push_str(&mut s, a);
    push_str(&mut s, b);
    assert(Seq::<char>::empty() + a@ =~= a@);
    s
}

/// `s` centered in `width` characters between runs of `fill` (one more on
/// the right when the padding is odd), or cut to its first `width`
/// characters when it does not fit.
pub open spec fn pad_center_spec(s: Seq<char>, width: nat, fill: char) -> Seq<char> {
    if s.len() >= width {
        s.take(width as int)
    } else {
        let total = (width - s.len()) as nat;
        let left = total / 2;
        repeat(fill, left) + s + repeat(fill, (total - left) as nat)
    }
}

/// `s` centered in `width` characters between runs of `fill`.
pub fn pad_center(s: &str, width: usize, fill: char) -> (r: String)
    ensures
        r@ == pad_center_spec(s@, width as nat, fill),
{
    let v = crate::text::chars_of(s);
    let len = v.len();
    if len >= width {
        let r = crate::text::string_of_range(&v, 0, width);
        assert(v@.subrange(0, width as int) =~= v@.take(width as int));
        return r;
    }
    let total = width - len;
    let left = total / 2;
    let right = total - left;
    let mut r = repeated(fill, left as u128);
    push_str(&mut r, s);
    push_repeat(&mut r, fill, right as u128);
    r
}

/// Centering always gives exactly `width` characters, and a text that fits
/// keeps all of itself, with at most one more fill character on the right
/// than on the left.
pub proof fn lemma_pad_center_width(s: Seq<char>, width: nat, fill: char)
    ensures
        pad_center_spec(s, width, fill).len() == width,
        s.len() < width ==> ({
            let total = (width - s.len()) as nat;
            let left = total / 2;
            &&& pad_center_spec(s, width, fill).subrange(left as int, (left + s.len()) as int) == s
            &&& (total - left) - left <= 1
            &&& left <= total - left
        }),
{
    if s.len() < width {
        let total = (width - s.len()) as nat;
        let left = total / 2;
        let r = pad_center_spec(s, width, fill);
        assert(r.subrange(left as int, (left + s.len()) as int) =~= s);
    }
}

} // verus!
