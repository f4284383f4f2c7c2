use mimic::config::theme::Color;
use mimic::config::Theme;
use mimic::ui::markdown::{
    markdown_events, render_events, render_markdown, ImageSpec, MdEvent, MdTag, Palette, PreviewCopyTarget,
    RenderedMarkdown,
};
use mimic::ui::preview::{palette_of, render_markdown_with_targets, wrap_lines, MarkdownPreview};
use mimic::ui::styled::{Mods, Span, Style};
use mimic::ui::wrap::{segments, wrap_editor_lines};

fn pal() -> Palette {
    Palette { fg: Color::Rgb(1, 1, 1), header: Color::Rgb(2, 2, 2), link: Color::Rgb(3, 3, 3), accent: Color::Rgb(4, 4, 4) }
}

fn mods() -> Mods {
    Mods { bold: false, dim: false, italic: false, underlined: false, crossed_out: false }
}

fn fg(c: Color) -> Style {
    Style { fg: Some(c), bg: None, mods: mods() }
}

fn texts(r: &RenderedMarkdown) -> Vec<Vec<String>> {
    r.lines.iter().map(|l| l.iter().map(|s| s.text.clone()).collect()).collect()
}

fn line_texts(lines: &[Vec<Span>]) -> Vec<String> {
    lines.iter().map(|l| l.iter().map(|s| s.text.as_str()).collect::<String>()).collect()
}

fn start(t: MdTag) -> MdEvent {
    MdEvent::Start(t, None, None)
}

fn text(s: &str) -> MdEvent {
    MdEvent::Text(s.to_string())
}

fn strs(v: &[&str]) -> Vec<String> {
    v.iter().map(|s| s.to_string()).collect()
}

#[test]
fn heading_and_paragraph() {
    let evs = vec![
        start(MdTag::Heading(2)),
        text("Hola"),
        MdEvent::End(MdTag::Heading(2)),
        start(MdTag::Paragraph),
        text("texto"),
        MdEvent::End(MdTag::Paragraph),
    ];
    let r = render_events(&evs, pal(), 30);
    assert_eq!(
        texts(&r),
        vec![vec![], strs(&[" Hola "]), vec!["─".repeat(40)], vec![], strs(&["texto"]), vec![]]
    );
    let badge = &r.lines[1][0].style;
    assert_eq!(badge.fg, Some(Color::Rgb(0x20, 0x1F, 0x26)));
    assert_eq!(badge.bg, Some(Color::Rgb(0x00, 0xA4, 0xFF)));
    assert!(badge.mods.bold);
    assert_eq!(r.lines[2][0].style, Style { fg: Some(Color::Rgb(2, 2, 2)), bg: None, mods: Mods { dim: true, ..mods() } });
    assert_eq!(r.lines[4][0].style, fg(Color::Rgb(1, 1, 1)));
    assert!(r.copy_targets.is_empty());
    assert!(r.images.is_empty());
}

#[test]
fn heading_levels_have_their_rules() {
    let evs = vec![start(MdTag::Heading(6)), text("  seis  "), MdEvent::End(MdTag::Heading(6))];
    let r = render_events(&evs, pal(), 30);
    assert_eq!(texts(&r), vec![vec![], strs(&[" seis "]), vec!["·".repeat(16)], vec![]]);
    assert!(r.lines[1][0].style.mods.dim);
    assert!(!r.lines[1][0].style.mods.bold);
}

#[test]
fn code_block_with_copy_button() {
    let evs = vec![
        MdEvent::Start(MdTag::CodeBlock, None, Some("rust".to_string())),
        text("fn a() {}\nlet x = 1;\n"),
        MdEvent::End(MdTag::CodeBlock),
    ];
    let r = render_events(&evs, pal(), 20);
    assert_eq!(
        texts(&r),
        vec![
            vec!["┌".to_string(), " RUST ".to_string(), "─".repeat(6), " ".to_string(), "[copy]".to_string()],
            strs(&["│ fn a() {}"]),
            strs(&["│ let x = 1;"]),
            vec![format!("└{}", "─".repeat(19))],
            vec![],
        ]
    );
    assert_eq!(r.copy_targets.len(), 1);
    let t = &r.copy_targets[0];
    assert_eq!((t.row, t.x_start, t.x_end), (0, 14, 20));
    assert_eq!(t.text, "fn a() {}\nlet x = 1;\n");
    assert_eq!(r.lines[1][0].style, Style { fg: Some(Color::Rgb(4, 4, 4)), bg: None, mods: Mods { dim: true, ..mods() } });
}

#[test]
fn narrow_code_header_pushes_button_right() {
    let evs = vec![start(MdTag::CodeBlock), text("x"), MdEvent::End(MdTag::CodeBlock)];
    let r = render_events(&evs, pal(), 3);
    // no language: left part is the corner; the line is at least 8 wide
    assert_eq!(texts(&r)[0], vec!["┌".to_string(), String::new(), " ".to_string(), "[copy]".to_string()]);
    let t = &r.copy_targets[0];
    assert_eq!((t.x_start, t.x_end), (2, 8));
    assert_eq!(t.text, "x");
}

#[test]
fn bullet_and_ordered_lists() {
    let evs = vec![
        start(MdTag::List),
        start(MdTag::Item),
        text("uno"),
        MdEvent::End(MdTag::Item),
        start(MdTag::Item),
        text("dos"),
        start(MdTag::List),
        start(MdTag::Item),
        text("hijo"),
        MdEvent::End(MdTag::Item),
        MdEvent::End(MdTag::List),
        MdEvent::End(MdTag::Item),
        MdEvent::End(MdTag::List),
        MdEvent::Start(MdTag::List, Some(3), None),
        start(MdTag::Item),
        text("tres"),
        MdEvent::End(MdTag::Item),
        start(MdTag::Item),
        MdEvent::TaskListMarker(true),
        text("cuatro"),
        MdEvent::End(MdTag::Item),
        MdEvent::End(MdTag::List),
    ];
    let r = render_events(&evs, pal(), 40);
    assert_eq!(
        texts(&r),
        vec![
            strs(&["• ", "uno"]),
            strs(&["• ", "dos"]),
            strs(&["  ◦ ", "hijo"]),
            vec![],
            strs(&["3. ", "tres"]),
            strs(&["4. ", "[x] ", "cuatro"]),
            vec![],
        ]
    );
    assert_eq!(r.lines[0][0].style, fg(Color::Rgb(4, 4, 4)));
    assert_eq!(r.lines[0][1].style, fg(Color::Rgb(1, 1, 1)));
}

#[test]
fn inline_styles_and_breaks() {
    let evs = vec![
        start(MdTag::Paragraph),
        text("a "),
        start(MdTag::Strong),
        text("b"),
        start(MdTag::Emphasis),
        text("c"),
        MdEvent::End(MdTag::Emphasis),
        MdEvent::End(MdTag::Strong),
        MdEvent::SoftBreak,
        MdEvent::Code("x".to_string()),
        MdEvent::HardBreak,
        start(MdTag::Link),
        text("l"),
        MdEvent::End(MdTag::Link),
        MdEvent::End(MdTag::Paragraph),
        MdEvent::Rule,
    ];
    let r = render_events(&evs, pal(), 40);
    assert_eq!(
        texts(&r),
        vec![strs(&["a ", "b", "c"]), strs(&["`x`"]), strs(&["l"]), vec![], vec!["─".repeat(50)], vec![]]
    );
    let b = r.lines[0][1].style;
    assert!(b.mods.bold && !b.mods.italic);
    let c = r.lines[0][2].style;
    assert!(c.mods.bold && c.mods.italic);
    assert_eq!(r.lines[2][0].style, Style { fg: Some(Color::Rgb(3, 3, 3)), bg: None, mods: Mods { underlined: true, ..mods() } });
}

#[test]
fn image_box() {
    let evs = vec![
        MdEvent::Start(MdTag::Image, None, Some("img/gato.png".to_string())),
        text("un gato"),
        MdEvent::End(MdTag::Image),
    ];
    let r = render_events(&evs, pal(), 20);
    let ls = line_texts(&r.lines);
    assert_eq!(ls.len(), 31);
    assert_eq!(ls[0], format!("┌{} un gato {}┐", "─".repeat(4), "─".repeat(5)));
    assert_eq!(ls[1], format!("│{}│", " ".repeat(18)));
    assert_eq!(ls[28], ls[1]);
    assert_eq!(ls[29], format!("└{}┘", "─".repeat(18)));
    assert_eq!(ls[30], "");
    assert_eq!(r.images.len(), 1);
    let i = &r.images[0];
    assert_eq!((i.path.as_str(), i.alt.as_str(), i.row, i.col_start, i.inner_width, i.inner_height), ("img/gato.png", "un gato", 1, 1, 18, 28));
}

#[test]
fn image_without_alt_uses_file_name() {
    let evs = vec![MdEvent::Start(MdTag::Image, None, Some("a/b/c.png".to_string())), MdEvent::End(MdTag::Image)];
    let r = render_events(&evs, pal(), 200);
    let ls = line_texts(&r.lines);
    // the box is at most 78 wide
    assert_eq!(ls[0], format!("┌{} c.png {}┐", "─".repeat(34), "─".repeat(35)));
    assert_eq!(r.images[0].inner_width, 76);
}

#[test]
fn parsed_documents_render() {
    let r = render_markdown("# Título\n\nHola *mundo*", pal(), 60);
    assert_eq!(
        texts(&r),
        vec![vec![], strs(&[" TÍTULO "]), vec!["═".repeat(48)], vec![], strs(&["Hola ", "mundo"]), vec![]]
    );
    assert!(r.lines[4][1].style.mods.italic);
    let c = render_markdown("```rust\nfn a() {}\n```\n", pal(), 20);
    assert_eq!(line_texts(&c.lines)[1], "│ fn a() {}");
    assert_eq!(c.copy_targets[0].text, "fn a() {}\n");
    assert_eq!(line_texts(&c.lines)[0], format!("┌ RUST {} [copy]", "─".repeat(6)));
    let img = render_markdown("![gato](img/gato.png)", pal(), 20);
    assert_eq!(img.images[0].path, "img/gato.png");
    assert_eq!(img.images[0].alt, "gato");
    assert_eq!(img.lines.len(), 31);
    let task = render_markdown("- [x] hecho", pal(), 20);
    assert_eq!(texts(&task), vec![strs(&["• ", "[x] ", "hecho"]), vec![]]);
}

#[test]
fn parser_events_are_converted() {
    let evs = markdown_events("## Dos\n\n1. a");
    let tags: Vec<String> = evs
        .iter()
        .map(|e| match e {
            MdEvent::Start(t, n, _) => format!("S{:?}{:?}", t, n),
            MdEvent::End(t) => format!("E{:?}", t),
            MdEvent::Text(s) => format!("T{}", s),
            _ => "O".to_string(),
        })
        .collect();
    assert_eq!(
        tags,
        vec![
            "SHeading(2)None",
            "TDos",
            "EHeading(2)",
            "SListSome(1)",
            "SItemNone",
            "Ta",
            "EItem",
            "EList",
        ]
    );
}

fn span(t: &str, st: Style) -> Span {
    Span { text: t.to_string(), style: st }
}

#[test]
fn long_lines_wrap_at_spaces() {
    let a = fg(Color::Rgb(9, 9, 9));
    let b = fg(Color::Rgb(8, 8, 8));
    let r = RenderedMarkdown {
        lines: vec![
            vec![span("hola mundo cruel", a)],
            vec![span("abcdefghijklmnop", a)],
            vec![span("ab", a), span("cd", b)],
            vec![span("abcdef", a), span("ghijkl", b)],
        ],
        copy_targets: vec![
            PreviewCopyTarget { row: 1, x_start: 2, x_end: 8, text: "t".to_string() },
            PreviewCopyTarget { row: 7, x_start: 0, x_end: 6, text: "u".to_string() },
        ],
        images: vec![ImageSpec { path: "p".to_string(), alt: String::new(), row: 9, col_start: 1, inner_width: 5, inner_height: 1 }],
    };
    let w = wrap_lines(r, 10);
    assert_eq!(
        texts(&w),
        vec![
            strs(&["hola"]),
            strs(&["mundo"]),
            strs(&["cruel"]),
            strs(&["abcdefghijklmnop"]),
            strs(&["ab", "cd"]),
            strs(&["abcdef", "ghij"]),
            strs(&["kl"]),
        ]
    );
    assert_eq!(w.lines[5][1].style, b);
    assert_eq!(w.copy_targets.len(), 1);
    assert_eq!((w.copy_targets[0].row, w.copy_targets[0].text.as_str()), (3, "t"));
    assert_eq!(w.images[0].row, 9);
}

#[test]
fn image_rows_are_never_wrapped() {
    let a = fg(Color::Rgb(9, 9, 9));
    let r = RenderedMarkdown {
        lines: vec![vec![span("a b c d e f", a)], vec![span("x y z w v u", a)], vec![span("q r s t u v", a)]],
        copy_targets: vec![],
        images: vec![ImageSpec { path: "p".to_string(), alt: String::new(), row: 2, col_start: 1, inner_width: 5, inner_height: 0 }],
    };
    let w = wrap_lines(r, 4);
    assert_eq!(line_texts(&w.lines), vec!["a b", "c d", "e f", "x y z w v u", "q r s t u v"]);
    assert_eq!(w.images[0].row, 4);
    let same = wrap_lines(
        RenderedMarkdown { lines: vec![vec![span("a b c d e f", a)]], copy_targets: vec![], images: vec![] },
        0,
    );
    assert_eq!(line_texts(&same.lines), vec!["a b c d e f"]);
}

#[test]
fn preview_with_theme_wraps() {
    let t = Theme::default_theme();
    let p = palette_of(&t);
    assert_eq!(p.fg, Color::Rgb(0xcd, 0xd6, 0xf4));
    assert_eq!(p.header, Color::Rgb(0xcb, 0xa6, 0xf7));
    let r = render_markdown_with_targets("# Título", 40, &t);
    assert_eq!(line_texts(&r.lines), vec!["".to_string(), " TÍTULO ".to_string(), "═".repeat(40), "═".repeat(8), "".to_string()]);
}

#[test]
fn preview_rows_shown() {
    let t = Theme::default_theme();
    let p = MarkdownPreview { content: "x", scroll: 5, theme: &t };
    assert_eq!(p.shown_rows(100, 20), (5, 20));
    assert_eq!(p.shown_rows(12, 20), (5, 7));
    assert_eq!(p.shown_rows(3, 20), (5, 0));
}

#[test]
fn editor_lines_wrap_with_cursor_and_selection() {
    let lines = vec!["hello world".to_string(), String::new(), "abcdefgh".to_string()];
    let r = wrap_editor_lines(&lines, 6, (2, 6), Some(((0, 3), (2, 2))));
    let rows: Vec<(usize, bool, String, Option<(usize, usize)>)> =
        r.lines.iter().map(|l| (l.logical_row, l.is_first_segment, l.text.clone(), l.highlight)).collect();
    assert_eq!(
        rows,
        vec![
            (0, true, "hello".to_string(), Some((3, 5))),
            (0, false, "world".to_string(), Some((0, 5))),
            (1, true, String::new(), None),
            (2, true, "abcdef".to_string(), Some((0, 2))),
            (2, false, "gh".to_string(), None),
        ]
    );
    assert_eq!((r.cursor_screen_row, r.cursor_screen_col), (4, 0));
    let c = wrap_editor_lines(&lines, 6, (0, 5), None);
    assert_eq!((c.cursor_screen_row, c.cursor_screen_col), (0, 5));
    let e = wrap_editor_lines(&lines, 6, (1, 0), None);
    assert_eq!((e.cursor_screen_row, e.cursor_screen_col), (2, 0));
    let narrow = wrap_editor_lines(&["abc".to_string()], 0, (0, 3), None);
    let t: Vec<String> = narrow.lines.iter().map(|l| l.text.clone()).collect();
    assert_eq!(t, vec!["a", "b", "c"]);
    assert_eq!((narrow.cursor_screen_row, narrow.cursor_screen_col), (2, 1));
}

#[test]
fn segments_break_after_last_space() {
    let v: Vec<char> = "hola mundo cruel".chars().collect();
    assert_eq!(segments(&v, 10), vec![(0, 4), (5, 10), (11, 16)]);
    let h: Vec<char> = " abcdef".chars().collect();
    assert_eq!(segments(&h, 3), vec![(0, 3), (3, 6), (6, 7)]);
    assert!(segments(&Vec::new(), 3).is_empty());
}
