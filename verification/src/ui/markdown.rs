//! Markdown rendered for the preview: headings as colored badges with a
//! rule under them, lists with bullets or numbers, fenced code in a box with
//! a `[copy]` button, images as boxes the image is drawn into.
use vstd::prelude::*;

use crate::config::theme::Color;
use crate::editor::decimal;
use crate::paths::{file_name_of, path_file_name};
use crate::text::{lines_spec, split_lines, string_push, trim, trim_spec};
use crate::ui::styled::{
    bold, crossed_out, dim, fg_style, italic, line_view, lines_view, no_mods, pad_center,
    pad_center_spec, plain, push_repeat, push_str, repeat, repeated, span_view, spanv, underlined,
    Span, SpanV, Style,
};
use vstd::string::*;

use pulldown_cmark::{CodeBlockKind, Event, Tag, TagEnd};

verus! {

/// The colors of the theme the preview uses.
#[derive(Clone, Copy, Debug, PartialEq, Eq, Structural)]
pub struct Palette {
    pub fg: Color,
    pub header: Color,
    pub link: Color,
    pub accent: Color,
}

/// The tags of a Markdown document that the preview distinguishes.
#[derive(Clone, Copy, Debug, PartialEq, Eq, Structural)]
pub enum MdTag {
    /// A heading of this level (1 to 6).
    Heading(u8),
    Paragraph,
    Strong,
    Emphasis,
    Strikethrough,
    Link,
    List,
    Item,
    CodeBlock,
    BlockQuote,
    Image,
    Other,
}

/// An event of a Markdown parse, in document order.
pub enum MdEvent {
    /// A tag opens; a list carries its first number when it is ordered, a
    /// fenced code block its info string, an image its destination.
    Start(MdTag, Option<u64>, Option<String>),
    End(MdTag),
    Text(String),
    /// Inline code.
    Code(String),
    SoftBreak,
    HardBreak,
    Rule,
    /// A task list checkbox, checked or not.
    TaskListMarker(bool),
    Other,
}

/// An event as plain values.
pub enum MdEventV {
    Start(MdTag, Option<u64>, Option<Seq<char>>),
    End(MdTag),
    Text(Seq<char>),
    Code(Seq<char>),
    SoftBreak,
    HardBreak,
    Rule,
    TaskListMarker(bool),
    Other,
}

/// An event as plain values.
pub open spec fn event_view(e: MdEvent) -> MdEventV {
    match e {
        MdEvent::Start(t, n, s) => MdEventV::Start(
            t,
            n,
            match s {
                Some(x) => Some(x@),
                None => None,
            },
        ),
        MdEvent::End(t) => MdEventV::End(t),
        MdEvent::Text(s) => MdEventV::Text(s@),
        MdEvent::Code(s) => MdEventV::Code(s@),
        MdEvent::SoftBreak => MdEventV::SoftBreak,
        MdEvent::HardBreak => MdEventV::HardBreak,
        MdEvent::Rule => MdEventV::Rule,
        MdEvent::TaskListMarker(b) => MdEventV::TaskListMarker(b),
        MdEvent::Other => MdEventV::Other,
    }
}

/// Events as plain values.
pub open spec fn events_view(es: Seq<MdEvent>) -> Seq<MdEventV> {
    es.map_values(|e: MdEvent| event_view(e))
}

/// A `[copy]` button: the row and columns it occupies and the code it copies.
pub struct TargetV {
    pub row: nat,
    pub x_start: u16,
    pub x_end: u16,
    pub text: Seq<char>,
}

/// An image box: the image, its alternative text, the first row inside the
/// box, and the inside's column and size.
pub struct ImageV {
    pub path: Seq<char>,
    pub alt: Seq<char>,
    pub row: nat,
    pub col_start: u16,
    pub inner_width: u16,
    pub inner_height: u16,
}

/// The state of the renderer between events.
#[verifier::ext_equal]
pub struct Ctx {
    pub lines: Seq<Seq<SpanV>>,
    pub targets: Seq<TargetV>,
    pub images: Seq<ImageV>,
    /// The spans of the line being built.
    pub spans: Seq<SpanV>,
    pub styles: Seq<Style>,
    pub list_depth: nat,
    pub list_ordered: Seq<bool>,
    pub counters: Seq<u64>,
    pub in_code: bool,
    /// The line of the open code block's header.
    pub header_line: Option<nat>,
    /// The text of the open code block.
    pub code_text: Seq<char>,
    pub heading: Option<u8>,
    pub in_image: bool,
    pub image_alt: Seq<char>,
    pub image_url: Seq<char>,
}

/// The renderer before the first event: one style, the foreground.
pub open spec fn initial(p: Palette) -> Ctx {
    Ctx {
        lines: seq![],
        targets: seq![],
        images: seq![],
        spans: seq![],
        styles: seq![fg_style(p.fg)],
        list_depth: 0,
        list_ordered: seq![],
        counters: seq![],
        in_code: false,
        header_line: None,
        code_text: seq![],
        heading: None,
        in_image: false,
        image_alt: seq![],
        image_url: seq![],
    }
}

/// The style in use: the innermost one.
pub open spec fn cur_style(c: Ctx, p: Palette) -> Style {
    if c.styles.len() > 0 {
        c.styles.last()
    } else {
        fg_style(p.fg)
    }
}

pub open spec fn push_style(c: Ctx, s: Style) -> Ctx {
    Ctx { styles: c.styles.push(s), ..c }
}

/// The innermost style ends; the outermost one always stays.
pub open spec fn pop_style(c: Ctx) -> Ctx {
    if c.styles.len() > 1 {
        Ctx { styles: c.styles.drop_last(), ..c }
    } else {
        c
    }
}

/// The line being built, if it has any span, is done.
pub open spec fn flush(c: Ctx) -> Ctx {
    if c.spans.len() > 0 {
        Ctx { lines: c.lines.push(c.spans), spans: seq![], ..c }
    } else {
        c
    }
}

/// The line being built is done, even if empty.
pub open spec fn flush_always(c: Ctx) -> Ctx {
    Ctx { lines: c.lines.push(c.spans), spans: seq![], ..c }
}

/// An empty line, unless the last line already is one.
pub open spec fn blank(c: Ctx) -> Ctx {
    if c.lines.len() > 0 && c.lines.last().len() == 0 {
        c
    } else {
        Ctx { lines: c.lines.push(seq![]), ..c }
    }
}

pub open spec fn add_span(c: Ctx, s: SpanV) -> Ctx {
    Ctx { spans: c.spans.push(s), ..c }
}

pub open spec fn add_line(c: Ctx, l: Seq<SpanV>) -> Ctx {
    Ctx { lines: c.lines.push(l), ..c }
}

/// `a - b`, or 0 when `b` is larger.
pub open spec fn sat_sub(a: int, b: int) -> nat {
    if a > b {
        (a - b) as nat
    } else {
        0
    }
}

/// What starts a list item: two spaces per level of nesting past the first,
/// then the item's number and `. ` in an ordered list, else a bullet that
/// depends on the depth.
pub open spec fn bullet_prefix(c: Ctx) -> Seq<char> {
    let ind = repeat(' ', 2 * sat_sub(c.list_depth as int, 1));
    if c.list_ordered.len() > 0 && c.list_ordered.last() {
        let n: u64 = if c.counters.len() > 0 {
            c.counters.last()
        } else {
            1
        };
        ind + decimal(n as nat) + seq!['.', ' ']
    } else if c.list_depth == 1 {
        ind + seq!['•', ' ']
    } else if c.list_depth == 2 {
        ind + seq!['◦', ' ']
    } else {
        ind + seq!['▪', ' ']
    }
}

/// `n + 1`, wrapping to 0 past the largest `u64`.
pub open spec fn wrap_inc(n: u64) -> u64 {
    if n == u64::MAX {
        0
    } else {
        (n + 1) as u64
    }
}

/// What `str::to_uppercase` gives for `s`.
pub uninterp spec fn uppercase(s: Seq<char>) -> Seq<char>;

/// The text and background colors of a heading badge, by level; levels past
/// 5 share the colors of level 6.
pub open spec fn badge_colors(level: u8) -> (Color, Color) {
    if level == 1 {
        (Color::Rgb(0xF7, 0xF6, 0xFB), Color::Rgb(0xC2, 0x59, 0xFF))
    } else if level == 2 {
        (Color::Rgb(0x20, 0x1F, 0x26), Color::Rgb(0x00, 0xA4, 0xFF))
    } else if level == 3 {
        (Color::Rgb(0x20, 0x1F, 0x26), Color::Rgb(0x00, 0xFF, 0xB2))
    } else if level == 4 {
        (Color::Rgb(0xF7, 0xF6, 0xFB), Color::Rgb(0x6B, 0x50, 0xFF))
    } else if level == 5 {
        (Color::Rgb(0xA2, 0xA0, 0xAD), Color::Rgb(0x3A, 0x39, 0x43))
    } else {
        (Color::Rgb(0x85, 0x83, 0x92), Color::Rgb(0x2D, 0x2C, 0x36))
    }
}

/// A heading's badge: its text trimmed (in capitals for level 1) between two
/// spaces, bold for levels 1 to 4, dim for level 6 and past.
pub open spec fn heading_line(raw: Seq<char>, level: u8) -> Seq<SpanV> {
    let t = trim_spec(raw);
    let t2 = if level == 1 {
        uppercase(t)
    } else {
        t
    };
    let (f, b) = badge_colors(level);
    let base = Style { fg: Some(f), bg: Some(b), mods: no_mods() };
    let st = if 1 <= level && level <= 4 {
        bold(base)
    } else if level == 5 {
        base
    } else {
        dim(base)
    };
    seq![spanv(seq![' '] + t2 + seq![' '], st)]
}

/// The rule under a heading: a dim run whose character and length depend on
/// the level.
pub open spec fn heading_rule(level: u8, header: Color) -> Seq<SpanV> {
    let (ch, len) = if level == 1 {
        ('═', 48nat)
    } else if level == 2 {
        ('─', 40nat)
    } else if level == 3 {
        ('╌', 34nat)
    } else if level == 4 {
        ('┄', 28nat)
    } else if level == 5 {
        ('┈', 22nat)
    } else {
        ('·', 16nat)
    };
    seq![spanv(repeat(ch, len), dim(fg_style(header)))]
}

/// The texts of spans, one after the other.
pub open spec fn concat_texts(s: Seq<SpanV>) -> Seq<char>
    decreases s.len(),
{
    if s.len() == 0 {
        seq![]
    } else {
        concat_texts(s.drop_last()) + s.last().text
    }
}

/// `[copy]`.
pub open spec fn copy_label() -> Seq<char> {
    seq!['[', 'c', 'o', 'p', 'y', ']']
}

/// How wide the left part of a code block header is: the corner, and the
/// language badge when there is a language.
pub open spec fn header_left_len(lang: Seq<char>) -> int {
    if lang.len() > 0 {
        uppercase(lang).len() as int + 3
    } else {
        1
    }
}

/// The header line of a code block `width` columns wide: a corner, the
/// language in capitals on the accent color, a rule, and `[copy]` at the
/// right end (pushed further right when the line is too narrow); with the
/// columns `[copy]` occupies, counted modulo 2^16.
pub open spec fn code_header(lang: Seq<char>, p: Palette, width: int) -> (Seq<SpanV>, u16, u16) {
    let border = dim(fg_style(p.accent));
    let left = header_left_len(lang);
    let badge: Seq<SpanV> = if lang.len() > 0 {
        seq![
            spanv(
                seq![' '] + uppercase(lang) + seq![' '],
                bold(Style { fg: Some(p.fg), bg: Some(p.accent), mods: no_mods() }),
            ),
        ]
    } else {
        seq![]
    };
    let inner = if width > left + 7 {
        width
    } else {
        left + 7
    };
    let gap = inner - (left + 6);
    let x_start = ((left + gap) % 65536) as u16;
    let x_end = ((x_start + 6) % 65536) as u16;
    let spans = seq![spanv(seq!['┌'], border)] + badge + seq![
        spanv(repeat('─', sat_sub(gap, 1)), border),
        spanv(seq![' '], plain()),
        spanv(copy_label(), underlined(bold(fg_style(p.link)))),
    ];
    (spans, x_start, x_end)
}

/// A code block opens: its header line and `[copy]` button are added, and
/// its text starts empty. An info string counts as a language when it is not
/// empty.
pub open spec fn start_code(c: Ctx, info: Option<Seq<char>>, p: Palette, width: int) -> Ctx {
    let lang = match info {
        Some(l) => l,
        None => seq![],
    };
    let c1 = flush(Ctx { in_code: true, ..c });
    let (h, xs, xe) = code_header(lang, p, width);
    let row = c1.lines.len();
    push_style(
        Ctx {
            lines: c1.lines.push(h),
            header_line: Some(row),
            targets: c1.targets.push(TargetV { row, x_start: xs, x_end: xe, text: seq![] }),
            code_text: seq![],
            ..c1
        },
        dim(fg_style(p.accent)),
    )
}

/// The last button on row `row`.
pub open spec fn last_target_on(ts: Seq<TargetV>, row: nat) -> Option<int>
    decreases ts.len(),
{
    if ts.len() == 0 {
        None
    } else if ts.last().row == row {
        Some(ts.len() - 1)
    } else {
        last_target_on(ts.drop_last(), row)
    }
}

/// A code block closes: its bottom border is added and its button gets the
/// block's text.
pub open spec fn end_code(c: Ctx, p: Palette, width: int) -> Ctx {
    let c1 = pop_style(flush(Ctx { in_code: false, ..c }));
    let c2 = add_line(c1, code_bottom(p, width));
    let ts = match c2.header_line {
        Some(row) => match last_target_on(c2.targets, row) {
            Some(j) => c2.targets.update(j, TargetV { text: c2.code_text, ..c2.targets[j] }),
            None => c2.targets,
        },
        None => c2.targets,
    };
    blank(Ctx { targets: ts, header_line: None, ..c2 })
}

/// The width of an image box: the width, kept between 10 and 78.
pub open spec fn image_box_width(width: int) -> int {
    if width < 10 {
        10
    } else if width > 78 {
        78
    } else {
        width
    }
}

/// How many rows the inside of an image box has.
pub open spec fn image_inner_height() -> nat {
    28
}

/// An image closes: a box titled with its alternative text (or, with none,
/// the file name of its destination) is added, and the image is placed in it.
pub open spec fn end_image(c: Ctx, p: Palette, width: int) -> Ctx {
    let inner_w = (image_box_width(width) - 2) as nat;
    let title = if trim_spec(c.image_alt).len() == 0 {
        match path_file_name(c.image_url) {
            Some(f) => f,
            None => c.image_url,
        }
    } else {
        c.image_alt
    };
    let border = dim(fg_style(p.accent));
    let top = seq![spanv(seq!['┌'] + pad_center_spec(seq![' '] + title + seq![' '], inner_w, '─') + seq!['┐'], border)];
    let mid = seq![spanv(seq!['│'] + repeat(' ', inner_w) + seq!['│'], border)];
    let bottom = seq![spanv(seq!['└'] + repeat('─', inner_w) + seq!['┘'], border)];
    let row = c.lines.len() + 1;
    let lines = c.lines.push(top) + Seq::new(image_inner_height(), |i: int| mid) + seq![bottom];
    blank(
        Ctx {
            in_image: false,
            lines,
            images: c.images.push(
                ImageV {
                    path: c.image_url,
                    alt: c.image_alt,
                    row,
                    col_start: 1,
                    inner_width: inner_w as u16,
                    inner_height: image_inner_height() as u16,
                },
            ),
            ..c
        },
    )
}

/// A heading closes: its badge and rule replace its spans.
pub open spec fn end_heading(c: Ctx, level: u8, p: Palette) -> Ctx {
    let c1 = pop_style(c);
    let raw = concat_texts(c1.spans);
    let c2 = Ctx { spans: seq![], ..c1 };
    let c3 = add_line(add_line(c2, heading_line(raw, level)), heading_rule(level, p.header));
    Ctx { heading: None, ..blank(c3) }
}

/// The lines of a text inside a code block, each `│ ` and the line, the
/// first continuing the line being built and each next one on a new line.
pub open spec fn add_code_lines(c: Ctx, ls: Seq<Seq<char>>, st: Style) -> Ctx
    decreases ls.len(),
{
    if ls.len() == 0 {
        c
    } else {
        let c1 = add_code_lines(c, ls.drop_last(), st);
        let c2 = if ls.len() > 1 {
            flush_always(c1)
        } else {
            c1
        };
        add_span(c2, spanv(seq!['│', ' '] + ls.last(), st))
    }
}

/// Text: into an image's alternative text, into a code block (as lines), or
/// a span in the style in use.
pub open spec fn on_text(c: Ctx, t: Seq<char>, p: Palette) -> Ctx {
    if c.in_image {
        Ctx { image_alt: c.image_alt + t, ..c }
    } else if c.in_code {
        let ct = if c.code_text.len() > 0 {
            c.code_text.push('\n')
        } else {
            c.code_text
        };
        add_code_lines(Ctx { code_text: ct + t, ..c }, lines_spec(t), cur_style(c, p))
    } else {
        add_span(c, spanv(t, cur_style(c, p)))
    }
}

/// A list opens: one level deeper, ordered when it has a first number, which
/// its counter starts at (else 1).
pub open spec fn start_list(c: Ctx, first: Option<u64>) -> Ctx {
    flush(
        Ctx {
            list_depth: c.list_depth + 1,
            list_ordered: c.list_ordered.push(first is Some),
            counters: c.counters.push(
                match first {
                    Some(n) => n,
                    None => 1,
                },
            ),
            ..c
        },
    )
}

/// A list closes; after the outermost one comes an empty line.
pub open spec fn end_list(c: Ctx) -> Ctx {
    let c1 = flush(c);
    let c2 = Ctx {
        list_depth: sat_sub(c1.list_depth as int, 1),
        list_ordered: if c1.list_ordered.len() > 0 {
            c1.list_ordered.drop_last()
        } else {
            c1.list_ordered
        },
        counters: if c1.counters.len() > 0 {
            c1.counters.drop_last()
        } else {
            c1.counters
        },
        ..c1
    };
    if c2.list_depth == 0 {
        blank(c2)
    } else {
        c2
    }
}

/// An item opens: its prefix in the accent color, then text in the
/// foreground; the list's counter moves on.
pub open spec fn start_item(c: Ctx, p: Palette) -> Ctx {
    let c1 = flush(c);
    let c2 = push_style(add_span(c1, spanv(bullet_prefix(c1), fg_style(p.accent))), fg_style(p.fg));
    if c2.counters.len() > 0 {
        Ctx { counters: c2.counters.update(c2.counters.len() - 1, wrap_inc(c2.counters.last())), ..c2 }
    } else {
        c2
    }
}

/// What one event does to the renderer.
pub open spec fn step(c: Ctx, e: MdEventV, p: Palette, width: int) -> Ctx {
    match e {
        MdEventV::Start(tag, n, s) => match tag {
            MdTag::Heading(l) => push_style(
                Ctx { heading: Some(l), ..blank(flush(c)) },
                bold(fg_style(p.header)),
            ),
            MdTag::Strong => push_style(c, bold(cur_style(c, p))),
            MdTag::Emphasis => push_style(c, italic(cur_style(c, p))),
            MdTag::Strikethrough => push_style(c, crossed_out(cur_style(c, p))),
            MdTag::Link => push_style(c, underlined(fg_style(p.link))),
            MdTag::List => start_list(c, n),
            MdTag::Item => start_item(c, p),
            MdTag::CodeBlock => start_code(c, s, p, width),
            MdTag::BlockQuote => push_style(c, italic(fg_style(p.link))),
            MdTag::Image => Ctx {
                in_image: true,
                image_url: match s {
                    Some(u) => u,
                    None => seq![],
                },
                image_alt: seq![],
                ..flush(c)
            },
            _ => c,
        },
        MdEventV::End(tag) => match tag {
            MdTag::Heading(l) => end_heading(c, l, p),
            MdTag::Paragraph => if flush(c).list_depth == 0 {
                blank(flush(c))
            } else {
                flush(c)
            },
            MdTag::Strong => pop_style(c),
            MdTag::Emphasis => pop_style(c),
            MdTag::Strikethrough => pop_style(c),
            MdTag::Link => pop_style(c),
            MdTag::List => end_list(c),
            MdTag::Item => flush(pop_style(c)),
            MdTag::CodeBlock => end_code(c, p, width),
            MdTag::BlockQuote => blank(pop_style(flush(c))),
            MdTag::Image => end_image(c, p, width),
            _ => c,
        },
        MdEventV::Text(t) => on_text(c, t, p),
        MdEventV::Code(t) => add_span(c, spanv(seq!['`'] + t + seq!['`'], dim(fg_style(p.accent)))),
        MdEventV::SoftBreak => flush_always(c),
        MdEventV::HardBreak => flush(c),
        MdEventV::Rule => blank(add_line(flush(c), seq![spanv(repeat('─', 50), dim(fg_style(p.header)))])),
        MdEventV::TaskListMarker(b) => add_span(
            c,
            spanv(
                if b {
                    seq!['[', 'x', ']', ' ']
                } else {
                    seq!['[', ' ', ']', ' ']
                },
                bold(fg_style(p.accent)),
            ),
        ),
        MdEventV::Other => c,
    }
}

/// The renderer after the events `es`.
pub open spec fn run(es: Seq<MdEventV>, p: Palette, width: int) -> Ctx
    decreases es.len(),
{
    if es.len() == 0 {
        initial(p)
    } else {
        step(run(es.drop_last(), p, width), es.last(), p, width)
    }
}

/// The rendering of the events `es` at `width` columns: the lines, the
/// `[copy]` buttons and the image boxes, once the last line is done.
pub open spec fn render_spec(es: Seq<MdEventV>, p: Palette, width: int) -> Ctx {
    flush(run(es, p, width))
}


/// `str::to_uppercase`: the text in capitals, by Unicode's case mapping.
#[verifier::external_body]
fn to_uppercase(s: &str) -> (r: String)
    ensures
        r@ == uppercase(s@),
{
    s.to_uppercase()
}

/// A `[copy]` button of the preview.
pub struct PreviewCopyTarget {
    pub row: usize,
    pub x_start: u16,
    pub x_end: u16,
    pub text: String,
}

/// An image box of the preview.
pub struct ImageSpec {
    pub path: String,
    pub alt: String,
    /// The first row inside the box, where the image itself starts.
    pub row: usize,
    pub col_start: u16,
    pub inner_width: u16,
    pub inner_height: u16,
}

pub open spec fn target_view(t: PreviewCopyTarget) -> TargetV {
    TargetV { row: t.row as nat, x_start: t.x_start, x_end: t.x_end, text: t.text@ }
}

pub open spec fn targets_view(ts: Seq<PreviewCopyTarget>) -> Seq<TargetV> {
    ts.map_values(|t: PreviewCopyTarget| target_view(t))
}

pub open spec fn image_view(i: ImageSpec) -> ImageV {
    ImageV {
        path: i.path@,
        alt: i.alt@,
        row: i.row as nat,
        col_start: i.col_start,
        inner_width: i.inner_width,
        inner_height: i.inner_height,
    }
}

pub open spec fn images_view(is: Seq<ImageSpec>) -> Seq<ImageV> {
    is.map_values(|i: ImageSpec| image_view(i))
}

/// The rendered lines, `[copy]` buttons and image boxes of a document.
pub struct RenderedMarkdown {
    pub lines: Vec<Vec<Span>>,
    pub copy_targets: Vec<PreviewCopyTarget>,
    pub images: Vec<ImageSpec>,
}

/// The renderer's state.
struct RenderCtx {
    lines: Vec<Vec<Span>>,
    targets: Vec<PreviewCopyTarget>,
    images: Vec<ImageSpec>,
    spans: Vec<Span>,
    styles: Vec<Style>,
    list_depth: usize,
    list_ordered: Vec<bool>,
    counters: Vec<u64>,
    in_code: bool,
    header_line: Option<usize>,
    code_text: String,
    heading: Option<u8>,
    in_image: bool,
    image_alt: String,
    image_url: String,
}

spec fn ctx_view(c: RenderCtx) -> Ctx {
    Ctx {
        lines: lines_view(c.lines@),
        targets: targets_view(c.targets@),
        images: images_view(c.images@),
        spans: line_view(c.spans@),
        styles: c.styles@,
        list_depth: c.list_depth as nat,
        list_ordered: c.list_ordered@,
        counters: c.counters@,
        in_code: c.in_code,
        header_line: match c.header_line {
            Some(r) => Some(r as nat),
            None => None,
        },
        code_text: c.code_text@,
        heading: c.heading,
        in_image: c.in_image,
        image_alt: c.image_alt@,
        image_url: c.image_url@,
    }
}

/// Pushing a line onto lines pushes its view.
pub proof fn lemma_lines_push(v: Seq<Vec<Span>>, x: Vec<Span>)
    ensures
        lines_view(v.push(x)) == lines_view(v).push(line_view(x@)),
{
    assert(lines_view(v.push(x)) =~= lines_view(v).push(line_view(x@)));
}

proof fn lemma_line_push(v: Seq<Span>, x: Span)
    ensures
        line_view(v.push(x)) == line_view(v).push(span_view(x)),
{
    assert(line_view(v.push(x)) =~= line_view(v).push(span_view(x)));
}

proof fn lemma_targets_push(v: Seq<PreviewCopyTarget>, x: PreviewCopyTarget)
    ensures
        targets_view(v.push(x)) == targets_view(v).push(target_view(x)),
{
    assert(targets_view(v.push(x)) =~= targets_view(v).push(target_view(x)));
}

proof fn lemma_images_push(v: Seq<ImageSpec>, x: ImageSpec)
    ensures
        images_view(v.push(x)) == images_view(v).push(image_view(x)),
{
    assert(images_view(v.push(x)) =~= images_view(v).push(image_view(x)));
}

/// A one-span line.
fn one_span(text: String, style: Style) -> (r: Vec<Span>)
    ensures
        line_view(r@) == seq![spanv(text@, style)],
{
    let mut v: Vec<Span> = Vec::new();
    v.push(Span { text, style });
    assert(line_view(v@) =~= seq![spanv(text@, style)]);
    v
}

impl RenderCtx {
    fn new(p: Palette) -> (r: Self)
        ensures
            ctx_view(r) == initial(p),
    {
        let mut styles: Vec<Style> = Vec::new();
        styles.push(Style::fg(p.fg));
        let r = RenderCtx {
            lines: Vec::new(),
            targets: Vec::new(),
            images: Vec::new(),
            spans: Vec::new(),
            styles,
            list_depth: 0,
            list_ordered: Vec::new(),
            counters: Vec::new(),
            in_code: false,
            header_line: None,
            code_text: String::new(),
            heading: None,
            in_image: false,
            image_alt: String::new(),
            image_url: String::new(),
        };
        assert(lines_view(r.lines@) =~= Seq::<Seq<SpanV>>::empty());
        assert(targets_view(r.targets@) =~= Seq::<TargetV>::empty());
        assert(images_view(r.images@) =~= Seq::<ImageV>::empty());
        assert(line_view(r.spans@) =~= Seq::<SpanV>::empty());
        assert(r.styles@ =~= seq![fg_style(p.fg)]);
        assert(r.list_ordered@ =~= Seq::<bool>::empty());
        assert(r.counters@ =~= Seq::<u64>::empty());
        r
    }

    fn cur_style(&self, p: Palette) -> (r: Style)
        ensures
            r == cur_style(ctx_view(*self), p),
    {
        if self.styles.len() > 0 {
            self.styles[self.styles.len() - 1]
        } else {
            Style::fg(p.fg)
        }
    }

    fn push_style(&mut self, s: Style)
        ensures
            ctx_view(*final(self)) == push_style(ctx_view(*old(self)), s),
    {
        self.styles.push(s);
    }

    fn pop_style(&mut self)
        ensures
            ctx_view(*final(self)) == pop_style(ctx_view(*old(self))),
    {
        if self.styles.len() > 1 {
            self.styles.pop();
        }
    }

    fn flush(&mut self)
        ensures
            ctx_view(*final(self)) == flush(ctx_view(*old(self))),
    {
        if self.spans.len() > 0 {
            let mut sp: Vec<Span> = Vec::new();
            std::mem::swap(&mut sp, &mut self.spans);
            proof {
                lemma_lines_push(self.lines@, sp);
            }
            self.lines.push(sp);
            assert(line_view(self.spans@) =~= Seq::<SpanV>::empty());
        }
    }

    fn flush_always(&mut self)
        ensures
            ctx_view(*final(self)) == flush_always(ctx_view(*old(self))),
    {
        let mut sp: Vec<Span> = Vec::new();
        std::mem::swap(&mut sp, &mut self.spans);
        proof {
            lemma_lines_push(self.lines@, sp);
        }
        self.lines.push(sp);
        assert(line_view(self.spans@) =~= Seq::<SpanV>::empty());
    }

    fn blank(&mut self)
        ensures
            ctx_view(*final(self)) == blank(ctx_view(*old(self))),
    {
        let n = self.lines.len();
        if n > 0 && self.lines[n - 1].len() == 0 {
            return;
        }
        let e: Vec<Span> = Vec::new();
        proof {
            lemma_lines_push(self.lines@, e);
        }
        self.lines.push(e);
        assert(line_view(e@) =~= Seq::<SpanV>::empty());
    }

    fn add_span(&mut self, text: String, style: Style)
        ensures
            ctx_view(*final(self)) == add_span(ctx_view(*old(self)), spanv(text@, style)),
    {
        let sp = Span { text, style };
        proof {
            lemma_line_push(self.spans@, sp);
        }
        self.spans.push(sp);
    }

    fn add_line(&mut self, l: Vec<Span>)
        ensures
            ctx_view(*final(self)) == add_line(ctx_view(*old(self)), line_view(l@)),
    {
        proof {
            lemma_lines_push(self.lines@, l);
        }
        self.lines.push(l);
    }
}


/// The string of the one character `c`.
fn char_string(c: char) -> (r: String)
    ensures
        r@ == seq![c],
{
    let mut r = String::new();
    string_push(&mut r, c);
    assert(r@ =~= seq![c]);
    r
}

/// The string of the characters `cs`, in order.
fn string_from(cs: &[char]) -> (r: String)
    ensures
        r@ == cs@,
{
    let mut r = String::new();
    let mut i: usize = 0;
    while i < cs.len()
        invariant
            i <= cs.len(),
            r@ == cs@.take(i as int),
        decreases cs.len() - i,
    {
        string_push(&mut r, cs[i]);
        assert(cs@.take(i + 1) =~= cs@.take(i as int).push(cs@[i as int]));
        i = i + 1;
    }
    assert(cs@.take(cs.len() as int) =~= cs@);
    r
}

fn badge_colors_of(level: u8) -> (r: (Color, Color))
    ensures
        r == badge_colors(level),
{
    if level == 1 {
        (Color::Rgb(0xF7, 0xF6, 0xFB), Color::Rgb(0xC2, 0x59, 0xFF))
    } else if level == 2 {
        (Color::Rgb(0x20, 0x1F, 0x26), Color::Rgb(0x00, 0xA4, 0xFF))
    } else if level == 3 {
        (Color::Rgb(0x20, 0x1F, 0x26), Color::Rgb(0x00, 0xFF, 0xB2))
    } else if level == 4 {
        (Color::Rgb(0xF7, 0xF6, 0xFB), Color::Rgb(0x6B, 0x50, 0xFF))
    } else if level == 5 {
        (Color::Rgb(0xA2, 0xA0, 0xAD), Color::Rgb(0x3A, 0x39, 0x43))
    } else {
        (Color::Rgb(0x85, 0x83, 0x92), Color::Rgb(0x2D, 0x2C, 0x36))
    }
}

fn heading_line_of(raw: &str, level: u8) -> (r: Vec<Span>)
    ensures
        line_view(r@) == heading_line(raw@, level),
{
    let t = trim(raw);
    let t2 = if level == 1 {
        to_uppercase(t.as_str())
    } else {
        t
    };
    let (f, b) = badge_colors_of(level);
    let base = Style::fg(f).on(b);
    let st = if 1 <= level && level <= 4 {
        base.bold()
    } else if level == 5 {
        base
    } else {
        base.dim()
    };
    let mut text = String::new();
    string_push(&mut text, ' ');
    push_str(&mut text, t2.as_str());
    string_push(&mut text, ' ');
    assert(text@ =~= seq![' '] + t2@ + seq![' ']);
    one_span(text, st)
}

fn heading_rule_of(level: u8, header: Color) -> (r: Vec<Span>)
    ensures
        line_view(r@) == heading_rule(level, header),
{
    let (ch, len): (char, u128) = if level == 1 {
        ('═', 48)
    } else if level == 2 {
        ('─', 40)
    } else if level == 3 {
        ('╌', 34)
    } else if level == 4 {
        ('┄', 28)
    } else if level == 5 {
        ('┈', 22)
    } else {
        ('·', 16)
    };
    one_span(repeated(ch, len), Style::fg(header).dim())
}

fn code_header_of(lang: &str, p: Palette, width: usize) -> (r: (Vec<Span>, u16, u16))
    ensures
        ({
            let (h, xs, xe) = code_header(lang@, p, width as int);
            line_view(r.0@) == h && r.1 == xs && r.2 == xe
        }),
{
    let border = Style::fg(p.accent).dim();
    let mut spans: Vec<Span> = Vec::new();
    spans.push(Span { text: char_string('┌'), style: border });
    let mut left: u128 = 1;
    let ghost badge: Seq<SpanV> = seq![];
    if lang.unicode_len() > 0 {
        let up = to_uppercase(lang);
        let mut b = String::new();
        string_push(&mut b, ' ');
        push_str(&mut b, up.as_str());
        string_push(&mut b, ' ');
        left = (up.as_str().unicode_len() as u128) + 3;
        let st = Style::fg(p.fg).on(p.accent).bold();
        proof {
            badge = seq![spanv(b@, st)];
        }
        assert(b@ =~= seq![' '] + uppercase(lang@) + seq![' ']);
        spans.push(Span { text: b, style: st });
    }
    let w = width as u128;
    let inner = if w > left + 7 {
        w
    } else {
        left + 7
    };
    let gap = inner - (left + 6);
    let x_start = ((left + gap) % 65536) as u16;
    let x_end = (((x_start as u128) + 6) % 65536) as u16;
    let dash = if gap > 1 {
        gap - 1
    } else {
        0
    };
    spans.push(Span { text: repeated('─', dash), style: border });
    spans.push(Span { text: char_string(' '), style: Style::plain() });
    let mut copy = char_string('[');
    string_push(&mut copy, 'c');
    string_push(&mut copy, 'o');
    string_push(&mut copy, 'p');
    string_push(&mut copy, 'y');
    string_push(&mut copy, ']');
    assert(copy@ =~= copy_label());
    spans.push(Span { text: copy, style: Style::fg(p.link).bold().underlined() });
    proof {
        let (h, xs, xe) = code_header(lang@, p, width as int);
        let border_s = dim(fg_style(p.accent));
        assert(h == seq![spanv(seq!['┌'], border_s)] + badge + seq![
            spanv(repeat('─', dash as nat), border_s),
            spanv(seq![' '], plain()),
            spanv(copy_label(), underlined(bold(fg_style(p.link)))),
        ]);
        assert(line_view(spans@) =~= h);
    }
    (spans, x_start, x_end)
}

impl RenderCtx {
    fn bullet_prefix(&self) -> (r: String)
        ensures
            r@ == bullet_prefix(ctx_view(*self)),
    {
        let depth = self.list_depth;
        let ind: u128 = if depth > 1 {
            2 * ((depth - 1) as u128)
        } else {
            0
        };
        let mut s = repeated(' ', ind);
        let no = self.list_ordered.len();
        if no > 0 && self.list_ordered[no - 1] {
            let nc = self.counters.len();
            let n: u64 = if nc > 0 {
                self.counters[nc - 1]
            } else {
                1
            };
            crate::editor::push_decimal(&mut s, n);
            string_push(&mut s, '.');
            string_push(&mut s, ' ');
        } else if depth == 1 {
            string_push(&mut s, '•');
            string_push(&mut s, ' ');
        } else if depth == 2 {
            string_push(&mut s, '◦');
            string_push(&mut s, ' ');
        } else {
            string_push(&mut s, '▪');
            string_push(&mut s, ' ');
        }
        proof {
            let c = ctx_view(*self);
            assert(s@ =~= bullet_prefix(c));
        }
        s
    }

    fn start_item(&mut self, p: Palette)
        ensures
            ctx_view(*final(self)) == start_item(ctx_view(*old(self)), p),
    {
        self.flush();
        let prefix = self.bullet_prefix();
        self.add_span(prefix, Style::fg(p.accent));
        self.push_style(Style::fg(p.fg));
        let nc = self.counters.len();
        if nc > 0 {
            let n = self.counters[nc - 1];
            let m = if n == u64::MAX {
                0
            } else {
                n + 1
            };
            self.counters.set(nc - 1, m);
        }
    }

    fn start_list(&mut self, first: Option<u64>)
        requires
            old(self).list_depth < usize::MAX,
        ensures
            ctx_view(*final(self)) == start_list(ctx_view(*old(self)), first),
    {
        self.list_depth = self.list_depth + 1;
        self.list_ordered.push(first.is_some());
        self.counters.push(
            match first {
                Some(n) => n,
                None => 1,
            },
        );
        self.flush();
    }

    fn end_list(&mut self)
        ensures
            ctx_view(*final(self)) == end_list(ctx_view(*old(self))),
    {
        self.flush();
        if self.list_depth > 0 {
            self.list_depth = self.list_depth - 1;
        }
        if self.list_ordered.len() > 0 {
            self.list_ordered.pop();
        }
        if self.counters.len() > 0 {
            self.counters.pop();
        }
        if self.list_depth == 0 {
            self.blank();
        }
    }

    fn end_heading(&mut self, level: u8, p: Palette)
        ensures
            ctx_view(*final(self)) == end_heading(ctx_view(*old(self)), level, p),
    {
        self.pop_style();
        let mut raw = String::new();
        let mut i: usize = 0;
        while i < self.spans.len()
            invariant
                i <= self.spans@.len(),
                raw@ == concat_texts(line_view(self.spans@.take(i as int))),
            decreases self.spans.len() - i,
        {
            push_str(&mut raw, self.spans[i].text.as_str());
            assert(line_view(self.spans@.take(i + 1)).drop_last() =~= line_view(
                self.spans@.take(i as int),
            ));
            i = i + 1;
        }
        assert(self.spans@.take(self.spans@.len() as int) =~= self.spans@);
        self.spans = Vec::new();
        assert(line_view(self.spans@) =~= Seq::<SpanV>::empty());
        self.add_line(heading_line_of(raw.as_str(), level));
        self.add_line(heading_rule_of(level, p.header));
        self.blank();
        self.heading = None;
    }

    fn start_code(&mut self, info: &Option<String>, p: Palette, width: usize)
        ensures
            ctx_view(*final(self)) == start_code(
                ctx_view(*old(self)),
                match *info {
                    Some(x) => Some(x@),
                    None => None,
                },
                p,
                width as int,
            ),
    {
        self.in_code = true;
        self.flush();
        let (h, xs, xe) = match info {
            Some(l) => code_header_of(l.as_str(), p, width),
            None => {
                let e = String::new();
                code_header_of(e.as_str(), p, width)
            },
        };
        let row = self.lines.len();
        self.add_line(h);
        self.header_line = Some(row);
        let t = PreviewCopyTarget { row, x_start: xs, x_end: xe, text: String::new() };
        proof {
            lemma_targets_push(self.targets@, t);
        }
        self.targets.push(t);
        self.code_text = String::new();
        self.push_style(Style::fg(p.accent).dim());
    }

    fn end_code(&mut self, p: Palette, width: usize)
        ensures
            ctx_view(*final(self)) == end_code(ctx_view(*old(self)), p, width as int),
    {
        let ghost c0 = ctx_view(*self);
        self.in_code = false;
        self.flush();
        self.pop_style();
        let mut b = char_string('└');
        push_repeat(
            &mut b,
            '─',
            if width > 0 {
                (width - 1) as u128
            } else {
                0
            },
        );
        assert(b@ =~= seq!['└'] + repeat('─', sat_sub(width as int, 1)));
        self.add_line(one_span(b, Style::fg(p.accent).dim()));
        let ghost c2 = ctx_view(*self);
        proof {
            let c1s = pop_style(flush(Ctx { in_code: false, ..c0 }));
            let c2s = add_line(c1s, code_bottom(p, width as int));
            assert(c2 == c2s);
        }
        match self.header_line {
            Some(row) => {
                let mut j = self.targets.len();
                assert(c2.targets.take(j as int) =~= c2.targets);
                while j > 0
                    invariant
                        j <= self.targets@.len(),
                        ctx_view(*self) == c2,
                        c2 == add_line(pop_style(flush(Ctx { in_code: false, ..c0 })), code_bottom(p, width as int)),
                        c0 == ctx_view(*old(self)),
                        c2.header_line == Some(row as nat),
                        last_target_on(c2.targets, row as nat) == last_target_on(
                            c2.targets.take(j as int),
                            row as nat,
                        ),
                    decreases j,
                {
                    assert(c2.targets.take(j as int).drop_last() =~= c2.targets.take(j - 1));
                    assert(c2.targets.take(j as int).last() == c2.targets[j - 1]);
                    if self.targets[j - 1].row == row {
                        assert(c2.targets[j - 1] == target_view(self.targets@[j - 1]));
                        assert(last_target_on(c2.targets.take(j as int), row as nat) == Some(j - 1));
                        let ghost before = ctx_view(*self);
                        let mut t = self.targets.remove(j - 1);
                        t.text = self.code_text.clone();
                        self.targets.insert(j - 1, t);
                        assert(targets_view(self.targets@) =~= c2.targets.update(
                            j - 1,
                            TargetV { text: c2.code_text, ..c2.targets[j - 1] },
                        ));
                        self.header_line = None;
                        let ghost exp = Ctx {
                            targets: c2.targets.update(j - 1, TargetV { text: c2.code_text, ..c2.targets[j - 1] }),
                            header_line: None,
                            ..c2
                        };
                        assert(ctx_view(*self) == exp);
                        assert(c2.header_line == Some(row as nat));
                        assert(last_target_on(c2.targets, row as nat) == Some(j - 1));
                        let ghost ts = match c2.header_line {
                            Some(rw) => match last_target_on(c2.targets, rw) {
                                Some(jj) => c2.targets.update(jj, TargetV { text: c2.code_text, ..c2.targets[jj] }),
                                None => c2.targets,
                            },
                            None => c2.targets,
                        };
                        assert(ts == exp.targets);
                        proof {
                            lemma_end_code(c0, p, width as int);
                        }
                        assert(end_code(c0, p, width as int) == blank(Ctx { targets: ts, header_line: None, ..c2 }));
                        assert(end_code(c0, p, width as int) == blank(exp));
                        self.blank();
                        return;
                    }
                    assert(c2.targets[j - 1] == target_view(self.targets@[j - 1]));
                    j = j - 1;
                }
                assert(c2.targets.take(0) =~= Seq::<TargetV>::empty());
                assert(last_target_on(c2.targets, row as nat) is None);
            },
            None => {},
        }
        self.header_line = None;
        assert(ctx_view(*self) == (Ctx { header_line: None, ..c2 }));
        proof {
            lemma_end_code(c0, p, width as int);
        }
        assert(end_code(c0, p, width as int) == blank(Ctx { header_line: None, ..c2 }));
        self.blank();
    }

    fn end_image(&mut self, p: Palette, width: usize)
        ensures
            ctx_view(*final(self)) == end_image(ctx_view(*old(self)), p, width as int),
    {
        let ghost c = ctx_view(*self);
        self.in_image = false;
        let bw: usize = if width < 10 {
            10
        } else if width > 78 {
            78
        } else {
            width
        };
        let inner_w = bw - 2;
        let t = trim(self.image_alt.as_str());
        let title = if t.as_str().unicode_len() == 0 {
            match file_name_of(self.image_url.as_str()) {
                Some(f) => String::from_str(f),
                None => self.image_url.clone(),
            }
        } else {
            self.image_alt.clone()
        };
        let mut tt = String::new();
        string_push(&mut tt, ' ');
        push_str(&mut tt, title.as_str());
        string_push(&mut tt, ' ');
        assert(tt@ =~= seq![' '] + title@ + seq![' ']);
        let border = Style::fg(p.accent).dim();
        let mut top = char_string('┌');
        let padded = pad_center(tt.as_str(), inner_w, '─');
        push_str(&mut top, padded.as_str());
        string_push(&mut top, '┐');
        assert(top@ =~= seq!['┌'] + pad_center_spec(tt@, inner_w as nat, '─') + seq!['┐']);
        self.add_line(one_span(top, border));
        let row = self.lines.len();
        let ghost mid = seq![spanv(seq!['│'] + repeat(' ', inner_w as nat) + seq!['│'], border)];
        let ghost after_top = lines_view(self.lines@);
        let ghost cl = ctx_view(*self);
        let mut k: usize = 0;
        while k < 28
            invariant
                k <= 28,
                ctx_view(*self) == (Ctx { lines: lines_view(self.lines@), ..cl }),
                lines_view(self.lines@) == after_top + Seq::new(k as nat, |i: int| mid),
                mid == seq![spanv(seq!['│'] + repeat(' ', inner_w as nat) + seq!['│'], border)],
            decreases 28 - k,
        {
            let mut m = char_string('│');
            push_repeat(&mut m, ' ', inner_w as u128);
            string_push(&mut m, '│');
            assert(m@ =~= seq!['│'] + repeat(' ', inner_w as nat) + seq!['│']);
            let l = one_span(m, border);
            proof {
                lemma_lines_push(self.lines@, l);
            }
            self.lines.push(l);
            assert(after_top + Seq::new((k + 1) as nat, |i: int| mid) =~= (after_top + Seq::new(
                k as nat,
                |i: int| mid,
            )).push(mid));
            k = k + 1;
        }
        let mut bot = char_string('└');
        push_repeat(&mut bot, '─', inner_w as u128);
        string_push(&mut bot, '┘');
        assert(bot@ =~= seq!['└'] + repeat('─', inner_w as nat) + seq!['┘']);
        self.add_line(one_span(bot, border));
        let img = ImageSpec {
            path: self.image_url.clone(),
            alt: self.image_alt.clone(),
            row,
            col_start: 1,
            inner_width: inner_w as u16,
            inner_height: 28,
        };
        proof {
            lemma_images_push(self.images@, img);
        }
        self.images.push(img);
        self.blank();
    }

    fn on_text(&mut self, t: &str, p: Palette)
        ensures
            ctx_view(*final(self)) == on_text(ctx_view(*old(self)), t@, p),
    {
        if self.in_image {
            push_str(&mut self.image_alt, t);
        } else if self.in_code {
            let st = self.cur_style(p);
            if self.code_text.as_str().unicode_len() > 0 {
                string_push(&mut self.code_text, '\n');
            }
            push_str(&mut self.code_text, t);
            let ls = split_lines(t);
            let ghost c0 = ctx_view(*self);
            let ghost lv = crate::text::views(ls@);
            let mut i: usize = 0;
            while i < ls.len()
                invariant
                    i <= ls@.len(),
                    lv == crate::text::views(ls@),
                    ctx_view(*self) == add_code_lines(c0, lv.take(i as int), st),
                decreases ls.len() - i,
            {
                assert(lv.take(i + 1).drop_last() =~= lv.take(i as int));
                if i > 0 {
                    self.flush_always();
                }
                let mut s = char_string('│');
                string_push(&mut s, ' ');
                push_str(&mut s, ls[i].as_str());
                assert(s@ =~= seq!['│', ' '] + lv[i as int]);
                self.add_span(s, st);
                i = i + 1;
            }
            assert(lv.take(ls@.len() as int) =~= lv);
        } else {
            let st = self.cur_style(p);
            self.add_span(String::from_str(t), st);
        }
    }

    fn apply_start(&mut self, tag: MdTag, n: Option<u64>, s: &Option<String>, p: Palette, width: usize)
        requires
            old(self).list_depth < usize::MAX,
        ensures
            ctx_view(*final(self)) == step(
                ctx_view(*old(self)),
                MdEventV::Start(
                    tag,
                    n,
                    match *s {
                        Some(x) => Some(x@),
                        None => None,
                    },
                ),
                p,
                width as int,
            ),
            final(self).list_depth <= old(self).list_depth + 1,
    {
        match tag {
            MdTag::Heading(l) => {
                self.flush();
                self.blank();
                self.heading = Some(l);
                self.push_style(Style::fg(p.header).bold());
            },
            MdTag::Strong => {
                let st = self.cur_style(p);
                self.push_style(st.bold());
            },
            MdTag::Emphasis => {
                let st = self.cur_style(p);
                self.push_style(st.italic());
            },
            MdTag::Strikethrough => {
                let st = self.cur_style(p);
                self.push_style(st.crossed_out());
            },
            MdTag::Link => self.push_style(Style::fg(p.link).underlined()),
            MdTag::List => self.start_list(n),
            MdTag::Item => self.start_item(p),
            MdTag::CodeBlock => self.start_code(s, p, width),
            MdTag::BlockQuote => self.push_style(Style::fg(p.link).italic()),
            MdTag::Image => {
                self.flush();
                self.in_image = true;
                self.image_url = match s {
                    Some(u) => u.clone(),
                    None => String::new(),
                };
                self.image_alt = String::new();
            },
            _ => {},
        }
    }

    fn apply_end(&mut self, tag: MdTag, p: Palette, width: usize)
        ensures
            ctx_view(*final(self)) == step(ctx_view(*old(self)), MdEventV::End(tag), p, width as int),
            final(self).list_depth <= old(self).list_depth,
    {
        match tag {
            MdTag::Heading(l) => self.end_heading(l, p),
            MdTag::Paragraph => {
                self.flush();
                if self.list_depth == 0 {
                    self.blank();
                }
            },
            MdTag::Strong => self.pop_style(),
            MdTag::Emphasis => self.pop_style(),
            MdTag::Strikethrough => self.pop_style(),
            MdTag::Link => self.pop_style(),
            MdTag::List => self.end_list(),
            MdTag::Item => {
                self.pop_style();
                self.flush();
            },
            MdTag::CodeBlock => self.end_code(p, width),
            MdTag::BlockQuote => {
                self.flush();
                self.pop_style();
                self.blank();
            },
            MdTag::Image => self.end_image(p, width),
            _ => {},
        }
    }

    /// Applies one event.
    fn apply(&mut self, e: &MdEvent, p: Palette, width: usize)
        requires
            old(self).list_depth < usize::MAX,
        ensures
            ctx_view(*final(self)) == step(ctx_view(*old(self)), event_view(*e), p, width as int),
    {
        match e {
            MdEvent::Start(tag, n, s) => self.apply_start(*tag, *n, s, p, width),
            MdEvent::End(tag) => self.apply_end(*tag, p, width),
            MdEvent::Text(t) => self.on_text(t.as_str(), p),
            MdEvent::Code(t) => {
                let mut s = char_string('`');
                push_str(&mut s, t.as_str());
                string_push(&mut s, '`');
                assert(s@ =~= seq!['`'] + t@ + seq!['`']);
                self.add_span(s, Style::fg(p.accent).dim());
            },
            MdEvent::SoftBreak => self.flush_always(),
            MdEvent::HardBreak => self.flush(),
            MdEvent::Rule => {
                self.flush();
                self.add_line(one_span(repeated('─', 50), Style::fg(p.header).dim()));
                self.blank();
            },
            MdEvent::TaskListMarker(b) => {
                let mut s = char_string('[');
                string_push(&mut s, if *b { 'x' } else { ' ' });
                string_push(&mut s, ']');
                string_push(&mut s, ' ');
                assert(s@ =~= (if *b {
                    seq!['[', 'x', ']', ' ']
                } else {
                    seq!['[', ' ', ']', ' ']
                }));
                self.add_span(s, Style::fg(p.accent).bold());
            },
            MdEvent::Other => {},
        }
    }
}

/// The spans of the bottom border of a code block.
pub open spec fn code_bottom(p: Palette, width: int) -> Seq<SpanV> {
    seq![spanv(seq!['└'] + repeat('─', sat_sub(width, 1)), dim(fg_style(p.accent)))]
}

proof fn lemma_end_code(c: Ctx, p: Palette, w: int)
    ensures
        ({
            let c2 = add_line(pop_style(flush(Ctx { in_code: false, ..c })), code_bottom(p, w));
            let ts = match c2.header_line {
                Some(row) => match last_target_on(c2.targets, row) {
                    Some(j) => c2.targets.update(j, TargetV { text: c2.code_text, ..c2.targets[j] }),
                    None => c2.targets,
                },
                None => c2.targets,
            };
            end_code(c, p, w) == blank(Ctx { targets: ts, header_line: None, ..c2 })
        }),
{
}

proof fn lemma_code_lines_depth(c: Ctx, ls: Seq<Seq<char>>, st: Style)
    ensures
        add_code_lines(c, ls, st).list_depth == c.list_depth,
    decreases ls.len(),
{
    if ls.len() > 0 {
        lemma_code_lines_depth(c, ls.drop_last(), st);
    }
}

proof fn lemma_step_depth(c: Ctx, e: MdEventV, p: Palette, w: int)
    ensures
        step(c, e, p, w).list_depth <= c.list_depth + 1,
{
    match e {
        MdEventV::Text(t) => {
            let ct = if c.code_text.len() > 0 {
                c.code_text.push('\n')
            } else {
                c.code_text
            };
            lemma_code_lines_depth(Ctx { code_text: ct + t, ..c }, lines_spec(t), cur_style(c, p));
        },
        MdEventV::End(tag) => {
            match tag {
                MdTag::CodeBlock => {
                    let c1 = pop_style(flush(Ctx { in_code: false, ..c }));
                    assert(c1.list_depth == c.list_depth);
                },
                _ => {},
            }
        },
        _ => {},
    }
}

proof fn lemma_code_lines_lists(c: Ctx, ls: Seq<Seq<char>>, st: Style)
    ensures
        add_code_lines(c, ls, st).list_depth == c.list_depth,
        add_code_lines(c, ls, st).list_ordered == c.list_ordered,
        add_code_lines(c, ls, st).counters == c.counters,
    decreases ls.len(),
{
    if ls.len() > 0 {
        lemma_code_lines_lists(c, ls.drop_last(), st);
    }
}

/// An event that neither opens nor closes a list keeps the list state: the
/// depth and kinds as they are, the counters but the innermost one.
proof fn lemma_step_keeps_lists(c: Ctx, e: MdEventV, p: Palette, w: int)
    requires
        list_change(e) == 0,
    ensures
        step(c, e, p, w).list_depth == c.list_depth,
        step(c, e, p, w).list_ordered == c.list_ordered,
        step(c, e, p, w).counters.len() == c.counters.len(),
        step(c, e, p, w).counters.take(sat_sub(c.counters.len() as int, 1) as int) == c.counters.take(
            sat_sub(c.counters.len() as int, 1) as int,
        ),
{
    let m = sat_sub(c.counters.len() as int, 1) as int;
    match e {
        MdEventV::Text(t) => {
            let ct = if c.code_text.len() > 0 {
                c.code_text.push('\n')
            } else {
                c.code_text
            };
            lemma_code_lines_lists(Ctx { code_text: ct + t, ..c }, lines_spec(t), cur_style(c, p));
        },
        MdEventV::Start(tag, _, _) => {
            match tag {
                MdTag::Item => {
                    let r = step(c, e, p, w);
                    assert(r.counters.take(m) =~= c.counters.take(m));
                },
                _ => {},
            }
        },
        MdEventV::End(tag) => {
            match tag {
                MdTag::CodeBlock => {
                    let c1 = pop_style(flush(Ctx { in_code: false, ..c }));
                    assert(c1.list_depth == c.list_depth);
                },
                _ => {},
            }
        },
        _ => {},
    }
}

/// How a single event changes the number of open lists: a list's start
/// opens one, its end closes one.
pub open spec fn list_change(e: MdEventV) -> int {
    match e {
        MdEventV::Start(MdTag::List, _, _) => 1,
        MdEventV::End(MdTag::List) => -1,
        _ => 0,
    }
}

/// How many lists the events `es` leave open (starts minus ends).
pub open spec fn open_lists(es: Seq<MdEventV>) -> int
    decreases es.len(),
{
    if es.len() == 0 {
        0
    } else {
        open_lists(es.drop_last()) + list_change(es.last())
    }
}

/// No prefix of `es` closes more lists than it opened.
pub open spec fn never_overclosed(es: Seq<MdEventV>) -> bool {
    forall|k: int| 0 <= k <= es.len() ==> #[trigger] open_lists(es.take(k)) >= 0
}

/// The renderer `c` after the events `es`.
pub open spec fn run_from(c: Ctx, es: Seq<MdEventV>, p: Palette, width: int) -> Ctx
    decreases es.len(),
{
    if es.len() == 0 {
        c
    } else {
        step(run_from(c, es.drop_last(), p, width), es.last(), p, width)
    }
}

/// Rendering a document runs its events from the renderer's first state.
pub proof fn lemma_run_from_initial(es: Seq<MdEventV>, p: Palette, width: int)
    ensures
        run(es, p, width) == run_from(initial(p), es, p, width),
    decreases es.len(),
{
    if es.len() > 0 {
        lemma_run_from_initial(es.drop_last(), p, width);
    }
}

/// Lists nest: after events that never close a list they did not open, the
/// kinds of the lists that were open before (ordered or not) are still there,
/// in order, with one more for each list left open, and so are their
/// counters but the innermost one (whose items may have moved it on); the
/// depth grows by the lists left open. So closing a list gives back the
/// state its opening found, and an item after a nested list is numbered or
/// bulleted as its own list.
pub proof fn lemma_lists_nest(c: Ctx, es: Seq<MdEventV>, p: Palette, width: int)
    requires
        never_overclosed(es),
    ensures
        ({
            let r = run_from(c, es, p, width);
            let n = c.list_ordered.len();
            let m = sat_sub(c.counters.len() as int, 1);
            &&& r.list_ordered.len() == n + open_lists(es)
            &&& r.list_ordered.take(n as int) == c.list_ordered
            &&& r.list_depth == c.list_depth + open_lists(es)
            &&& r.counters.len() == c.counters.len() + open_lists(es)
            &&& r.counters.take(m as int) == c.counters.take(m as int)
        }),
    decreases es.len(),
{
    if es.len() > 0 {
        let pre = es.drop_last();
        assert forall|k: int| 0 <= k <= pre.len() implies #[trigger] open_lists(pre.take(k)) >= 0 by {
            assert(pre.take(k) =~= es.take(k));
            assert(open_lists(es.take(k)) >= 0);
        }
        lemma_lists_nest(c, pre, p, width);
        assert(es.take(es.len() as int) =~= es);
        assert(open_lists(es.take(es.len() as int)) >= 0);
        let r0 = run_from(c, pre, p, width);
        let e = es.last();
        let n = c.list_ordered.len();
        let m = sat_sub(c.counters.len() as int, 1);
        let r = step(r0, e, p, width);
        assert(r == run_from(c, es, p, width));
        if list_change(e) == 0 {
            lemma_step_keeps_lists(r0, e, p, width);
            if open_lists(pre) > 0 {
                assert(r.counters.take(m as int) =~= r.counters.take(sat_sub(r0.counters.len() as int, 1) as int).take(m as int));
                assert(r0.counters.take(m as int) =~= r0.counters.take(sat_sub(r0.counters.len() as int, 1) as int).take(m as int));
            }
        } else if list_change(e) == 1 {
            assert(r.list_ordered.take(n as int) =~= r0.list_ordered.take(n as int));
            assert(r.counters.take(m as int) =~= r0.counters.take(m as int));
        } else {
            assert(open_lists(pre) >= 1);
            let c1 = flush(r0);
            assert(c1.list_ordered.drop_last().take(n as int) =~= r0.list_ordered.take(n as int));
            assert(c1.counters.drop_last().take(m as int) =~= r0.counters.take(m as int));
        }
    } else {
        assert(c.list_ordered.take(c.list_ordered.len() as int) =~= c.list_ordered);
    }
}

/// Renders the events `events` at `width` columns with the colors `p`.
pub fn render_events(events: &Vec<MdEvent>, p: Palette, width: usize) -> (r: RenderedMarkdown)
    ensures
        ({
            let c = render_spec(events_view(events@), p, width as int);
            &&& lines_view(r.lines@) == c.lines
            &&& targets_view(r.copy_targets@) == c.targets
            &&& images_view(r.images@) == c.images
        }),
{
    let mut ctx = RenderCtx::new(p);
    let ghost es = events_view(events@);
    let mut i: usize = 0;
    while i < events.len()
        invariant
            i <= events@.len(),
            es == events_view(events@),
            ctx_view(ctx) == run(es.take(i as int), p, width as int),
            ctx.list_depth <= i,
        decreases events.len() - i,
    {
        assert(es.take(i + 1).drop_last() =~= es.take(i as int));
        assert(es.take(i + 1).last() == event_view(events@[i as int]));
        proof {
            lemma_step_depth(ctx_view(ctx), es[i as int], p, width as int);
        }
        ctx.apply(&events[i], p, width);
        i = i + 1;
    }
    assert(es.take(events@.len() as int) =~= es);
    ctx.flush();
    RenderedMarkdown { lines: ctx.lines, copy_targets: ctx.targets, images: ctx.images }
}


/// An event of `pulldown_cmark`'s parser.
#[verifier::external_type_specification]
#[verifier::external_body]
pub struct ExParserEvent<'a>(pulldown_cmark::Event<'a>);

/// The closing form of a `pulldown_cmark` tag.
#[verifier::external_type_specification]
#[verifier::external_body]
pub struct ExTagEnd(pulldown_cmark::TagEnd);

/// For a tag's start or end, whether it is a start and the tag in its
/// closing form (`Tag::to_end`); none for other events.
#[verifier::external_body]
fn event_tag(e: &Event) -> (r: Option<(bool, TagEnd)>) {
    match e {
        Event::Start(t) => Some((true, t.to_end())),
        Event::End(t) => Some((false, *t)),
        _ => None,
    }
}

/// The library's name for a tag.
#[verifier::external_body]
fn tag_kind(t: TagEnd) -> (r: MdTag) {
    match t {
        TagEnd::Heading(l) => MdTag::Heading(l as u8),
        TagEnd::Paragraph => MdTag::Paragraph,
        TagEnd::Strong => MdTag::Strong,
        TagEnd::Emphasis => MdTag::Emphasis,
        TagEnd::Strikethrough => MdTag::Strikethrough,
        TagEnd::Link => MdTag::Link,
        TagEnd::List(_) => MdTag::List,
        TagEnd::Item => MdTag::Item,
        TagEnd::CodeBlock => MdTag::CodeBlock,
        TagEnd::BlockQuote(_) => MdTag::BlockQuote,
        TagEnd::Image => MdTag::Image,
        _ => MdTag::Other,
    }
}

/// What a tag's start carries: an ordered list's first number, a fenced code
/// block's info string, an image's destination.
#[verifier::external_body]
fn start_data(e: &Event) -> (r: (Option<u64>, Option<String>)) {
    match e {
        Event::Start(Tag::List(n)) => (*n, None),
        Event::Start(Tag::CodeBlock(CodeBlockKind::Fenced(l))) => (None, Some(l.to_string())),
        Event::Start(Tag::Image { dest_url, .. }) => (None, Some(dest_url.to_string())),
        _ => (None, None),
    }
}

/// An event that is not a tag, in the library's terms.
#[verifier::external_body]
fn leaf_event(e: &Event) -> (r: MdEvent) {
    match e {
        Event::Text(s) => MdEvent::Text(s.to_string()),
        Event::Code(s) => MdEvent::Code(s.to_string()),
        Event::SoftBreak => MdEvent::SoftBreak,
        Event::HardBreak => MdEvent::HardBreak,
        Event::Rule => MdEvent::Rule,
        Event::TaskListMarker(b) => MdEvent::TaskListMarker(*b),
        _ => MdEvent::Other,
    }
}

/// One parser event in the library's terms.
fn md_event(e: &Event) -> MdEvent {
    match event_tag(e) {
        Some((true, t)) => {
            let (n, s) = start_data(e);
            MdEvent::Start(tag_kind(t), n, s)
        },
        Some((false, t)) => MdEvent::End(tag_kind(t)),
        None => leaf_event(e),
    }
}

/// The events that `pulldown_cmark` gives for the document `content`, with
/// every extension on, in the library's terms.
pub uninterp spec fn pulldown_events(content: Seq<char>) -> Seq<MdEventV>;

/// `pulldown_cmark::Parser::new_ext` with every extension on, each event
/// taken into the library's terms. The parser reads nothing but the
/// document, so the events are named by it.
#[verifier::external_body]
fn parse_events(content: &str) -> (r: Vec<MdEvent>)
    ensures
        events_view(r@) == pulldown_events(content@),
{
    pulldown_cmark::Parser::new_ext(content, pulldown_cmark::Options::all()).map(|e| md_event(&e)).collect()
}

/// The events of the Markdown document `content`, as `pulldown_cmark` parses
/// it with all its extensions.
pub fn markdown_events(content: &str) -> (r: Vec<MdEvent>)
    ensures
        events_view(r@) == pulldown_events(content@),
{
    parse_events(content)
}

/// Renders the Markdown document `content` at `width` columns with the
/// colors `p`: the rendering of the events the parser gives for it.
pub fn render_markdown(content: &str, p: Palette, width: usize) -> (r: RenderedMarkdown)
    ensures
        ({
            let c = render_spec(pulldown_events(content@), p, width as int);
            &&& lines_view(r.lines@) == c.lines
            &&& targets_view(r.copy_targets@) == c.targets
            &&& images_view(r.images@) == c.images
        }),
{
    let events = markdown_events(content);
    render_events(&events, p, width)
}

} // verus!
