//! The two bottom rows of the main screen: the status bar (mode, view, note,
//! vault, and the latest message) and the key hints of the mode.
use vstd::prelude::*;
use vstd::string::*;

use crate::config::theme::{parse_color_spec, Theme};
use crate::modes::{spec_mode_label, spec_view_label, AppMode, ViewMode};
use crate::paths::{file_name_of, path_file_name};
use crate::ui::styled::{bold, fg_style, line_view, push_repeat, push_str, repeat, spanv, Span, SpanV, Style};
use crate::ui::tabs::utf8_len;

verus! {

/// The vault's name as the status bar shows it: the last component of its
/// root, or `—` without a vault (or a root without a name).
pub open spec fn vault_label(root: Option<Seq<char>>) -> Seq<char> {
    match root {
        Some(r) => match path_file_name(r) {
            Some(n) => n,
            None => "—"@,
        },
        None => "—"@,
    }
}

/// The left text of the status bar: the command line in Command mode, else
/// the mode, the view, the active note, the vault and ` ●` for unsaved
/// changes.
pub open spec fn status_text_spec(
    mode: AppMode,
    view: ViewMode,
    command: Seq<char>,
    note: Seq<char>,
    root: Option<Seq<char>>,
    dirty: bool,
) -> Seq<char> {
    if mode == AppMode::Command {
        seq![':'] + command
    } else {
        seq![' '] + spec_mode_label(mode) + " | "@ + spec_view_label(view) + " | "@ + note
            + " | vault: "@ + vault_label(root) + (if dirty {
            " ●"@
        } else {
            ""@
        })
    }
}

/// The left text of the status bar; `note` is the active note's name (empty
/// without one), `root` the vault's root, `dirty` whether the active note
/// has unsaved changes.
pub fn status_text(
    mode: AppMode,
    view: ViewMode,
    command: &str,
    note: &str,
    root: Option<&str>,
    dirty: bool,
) -> (r: String)
    ensures
        r@ == status_text_spec(mode, view, command@, note@, crate::paths::opt_view(root), dirty),
{
    if mode == AppMode::Command {
        let mut s = String::from_str(":");
        push_str(&mut s, command);
        proof {
            reveal_strlit(":");
        }
        return s;
    }
    let vault: &str = match root {
        Some(r) => match file_name_of(r) {
            Some(n) => n,
            None => "—",
        },
        None => "—",
    };
    let mut s = String::from_str(" ");
    push_str(&mut s, mode.label());
    push_str(&mut s, " | ");
    push_str(&mut s, view.label());
    push_str(&mut s, " | ");
    push_str(&mut s, note);
    push_str(&mut s, " | vault: ");
    push_str(&mut s, vault);
    push_str(&mut s, if dirty {
        " ●"
    } else {
        ""
    });
    proof {
        reveal_strlit(" ");
    }
    s
}

/// `a - b`, or 0 when `b` is larger.
pub open spec fn sub0(a: int, b: int) -> int {
    if a > b {
        a - b
    } else {
        0
    }
}

/// `t` followed by spaces up to `w` characters.
pub open spec fn pad_right(t: Seq<char>, w: int) -> Seq<char> {
    t + repeat(' ', sub0(w, t.len() as int) as nat)
}

/// The status bar `width` columns wide: the left text padded with spaces to
/// the room the message leaves (the message's length counted in bytes, as
/// a `u16`), then the message after two spaces, if there is one.
pub open spec fn status_parts_spec(left: Seq<char>, msg: Option<Seq<char>>, width: u16) -> (Seq<char>, Seq<char>) {
    let right = match msg {
        Some(m) => "  "@ + m,
        None => ""@,
    };
    let room = sub0(width as int, (utf8_len(right) % 65536) as int);
    (pad_right(left, room), right)
}

/// The two texts of the status bar: the left one, padded, and the message.
pub fn status_parts(left: &str, msg: Option<&str>, width: u16) -> (r: (String, String))
    requires
        msg matches Some(m) ==> m@.len() < 0x0fff_ffff_ffff_ff00,
    ensures
        (r.0@, r.1@) == status_parts_spec(left@, crate::paths::opt_view(msg), width),
{
    let mut right = String::new();
    match msg {
        Some(m) => {
            push_str(&mut right, "  ");
            push_str(&mut right, m);
        },
        None => {},
    }
    proof {
        reveal_strlit("  ");
        reveal_strlit("");
    }
    let bytes = crate::ui::tabs::byte_len(right.as_str());
    let b16: u64 = bytes % 65536;
    let room: u64 = if (width as u64) > b16 {
        width as u64 - b16
    } else {
        0
    };
    let mut out = String::new();
    push_str(&mut out, left);
    let n = left.unicode_len() as u64;
    if n < room {
        push_repeat(&mut out, ' ', (room - n) as u128);
    }
    (out, right)
}

/// The key hints of each mode: the key, then what it does.
pub open spec fn hints_spec(m: AppMode) -> Seq<(Seq<char>, Seq<char>)> {
    match m {
        AppMode::Normal => seq![
            ("e/i"@, "editar"@),
            (":"@, "comando"@),
            ("Tab"@, "sig.tab"@),
            ("^W"@, "cerrar tab"@),
            ("r"@, "renombrar"@),
            ("j/k"@, "sidebar"@),
            ("Enter"@, "abrir"@),
            ("g"@, "link"@),
            ("^V"@, "vista"@),
            ("^T"@, "config"@),
            ("^H"@, "home"@),
        ],
        AppMode::Insert => seq![("Esc"@, "normal"@), ("^S"@, "guardar"@)],
        AppMode::Command => seq![
            (":w"@, "guardar"@),
            (":q"@, "cerrar tab"@),
            (":qa"@, "salir"@),
            (":wq"@, "guardar+cerrar"@),
            (":new <nom>"@, "nueva nota"@),
            (":mkdir <nom>"@, "nueva carpeta"@),
            (":vault <ruta>"@, "cambiar vault"@),
            (":home"@, "home"@),
            ("Esc"@, "cancelar"@),
        ],
        AppMode::Settings => seq![
            ("Tab"@, "cambiar tab"@),
            ("j/k"@, "navegar"@),
            ("Space"@, "activar/desactivar"@),
            ("Esc"@, "cerrar"@),
        ],
        _ => seq![],
    }
}

/// The key hints of mode `m`.
pub fn hints(m: AppMode) -> (r: Vec<(&'static str, &'static str)>)
    ensures
        r@.map_values(|p: (&str, &str)| (p.0@, p.1@)) == hints_spec(m),
{
    let mut v: Vec<(&'static str, &'static str)> = Vec::new();
    match m {
        AppMode::Normal => {
            v.push(("e/i", "editar"));
            v.push((":", "comando"));
            v.push(("Tab", "sig.tab"));
            v.push(("^W", "cerrar tab"));
            v.push(("r", "renombrar"));
            v.push(("j/k", "sidebar"));
            v.push(("Enter", "abrir"));
            v.push(("g", "link"));
            v.push(("^V", "vista"));
            v.push(("^T", "config"));
            v.push(("^H", "home"));
        },
        AppMode::Insert => {
            v.push(("Esc", "normal"));
            v.push(("^S", "guardar"));
        },
        AppMode::Command => {
            v.push((":w", "guardar"));
            v.push((":q", "cerrar tab"));
            v.push((":qa", "salir"));
            v.push((":wq", "guardar+cerrar"));
            v.push((":new <nom>", "nueva nota"));
            v.push((":mkdir <nom>", "nueva carpeta"));
            v.push((":vault <ruta>", "cambiar vault"));
            v.push((":home", "home"));
            v.push(("Esc", "cancelar"));
        },
        AppMode::Settings => {
            v.push(("Tab", "cambiar tab"));
            v.push(("j/k", "navegar"));
            v.push(("Space", "activar/desactivar"));
            v.push(("Esc", "cerrar"));
        },
        _ => {},
    }
    assert(v@.map_values(|p: (&str, &str)| (p.0@, p.1@)) =~= hints_spec(m));
    v
}

/// The spans of the hints `hs`: a space, then each key in `key` style and
/// ` ` and its meaning in `sep` style, two spaces between hints.
pub open spec fn hint_spans_spec(hs: Seq<(Seq<char>, Seq<char>)>, key: Style, sep: Style) -> Seq<SpanV>
    decreases hs.len(),
{
    if hs.len() == 0 {
        seq![spanv(seq![' '], sep)]
    } else {
        let rest = hint_spans_spec(hs.drop_last(), key, sep);
        let (k, d) = hs.last();
        let gap: Seq<SpanV> = if hs.len() > 1 {
            seq![spanv("  "@, sep)]
        } else {
            seq![]
        };
        rest + gap + seq![spanv(k, key), spanv(seq![' '] + d, sep)]
    }
}

/// How many columns the hints take: a leading space, and each key and its
/// meaning with three more (the hint strings are ASCII, so characters and
/// bytes agree).
pub open spec fn hints_width(hs: Seq<(Seq<char>, Seq<char>)>) -> int
    decreases hs.len(),
{
    if hs.len() == 0 {
        1
    } else {
        hints_width(hs.drop_last()) + hs.last().0.len() + hs.last().1.len() + 3
    }
}

/// The hints row of mode `m` in the colors of `t`, `width` columns wide: the
/// hints, then spaces to the end of the row.
pub open spec fn hints_row_spec(m: AppMode, t: Theme, width: u16) -> Seq<SpanV> {
    let bg = parse_color_spec(t.border@);
    let key = bold(fg_style(parse_color_spec(t.accent@)));
    let key_bg = Style { bg: Some(bg), ..key };
    let sep = Style { bg: Some(bg), ..fg_style(parse_color_spec(t.tab_inactive@)) };
    let hs = hints_spec(m);
    hint_spans_spec(hs, key_bg, sep) + seq![spanv(repeat(' ', sub0(width as int, hints_width(hs)) as nat), sep)]
}

/// `n`, or the largest `usize` when it does not fit.
pub open spec fn capped(n: int) -> int {
    if n <= usize::MAX {
        n
    } else {
        usize::MAX as int
    }
}

/// `a + b`, or the largest `usize` when it does not fit.
fn sat_add(a: usize, b: usize) -> (r: usize)
    ensures
        r as int == capped(a + b),
{
    if a <= usize::MAX - b {
        a + b
    } else {
        usize::MAX
    }
}

/// The hints row of mode `m` in the colors of `theme`, `width` columns wide.
pub fn hints_row(m: AppMode, theme: &Theme, width: u16) -> (r: Vec<Span>)
    ensures
        line_view(r@) == hints_row_spec(m, *theme, width),
{
    let bg = Theme::parse_color(theme.border.as_str());
    let key = Style::fg(Theme::parse_color(theme.accent.as_str())).bold().on(bg);
    let sep = Style::fg(Theme::parse_color(theme.tab_inactive.as_str())).on(bg);
    let hs = hints(m);
    let ghost hv = hs@.map_values(|p: (&str, &str)| (p.0@, p.1@));
    let mut spans: Vec<Span> = Vec::new();
    spans.push(Span { text: String::from_str(" "), style: sep });
    proof {
        reveal_strlit(" ");
        assert(spans@[0].text@ =~= seq![' ']);
        assert(line_view(spans@) =~= hint_spans_spec(hv.take(0), key, sep));
    }
    let mut used: usize = 1;
    let mut i: usize = 0;
    while i < hs.len()
        invariant
            i <= hs@.len(),
            hv == hs@.map_values(|p: (&str, &str)| (p.0@, p.1@)),
            hv == hints_spec(m),
            line_view(spans@) == hint_spans_spec(hv.take(i as int), key, sep),
            used as int == capped(hints_width(hv.take(i as int))),
            hints_width(hv.take(i as int)) >= 1,
        decreases hs.len() - i,
    {
        let (k, d) = hs[i];
        let ghost before = line_view(spans@);
        assert(hv.take(i + 1).drop_last() =~= hv.take(i as int));
        assert(hv.take(i + 1).last() == hv[i as int]);
        assert(hv[i as int] == (k@, d@));
        if i > 0 {
            spans.push(Span { text: String::from_str("  "), style: sep });
        }
        spans.push(Span { text: String::from_str(k), style: key });
        let mut desc = String::from_str(" ");
        push_str(&mut desc, d);
        proof {
            reveal_strlit(" ");
            assert(desc@ =~= seq![' '] + d@);
        }
        spans.push(Span { text: desc, style: sep });
        proof {
            reveal_strlit("  ");
            let n0 = before.len() as int;
            if i > 0 {
                assert(line_view(spans@).len() == n0 + 3);
                assert(line_view(spans@)[n0] == spanv("  "@, sep));
                assert(line_view(spans@)[n0 + 1] == spanv(k@, key));
                assert(line_view(spans@)[n0 + 2] == spanv(seq![' '] + d@, sep));
            } else {
                assert(line_view(spans@).len() == n0 + 2);
                assert(line_view(spans@)[n0] == spanv(k@, key));
                assert(line_view(spans@)[n0 + 1] == spanv(seq![' '] + d@, sep));
            }
            assert(forall|q: int| 0 <= q < n0 ==> line_view(spans@)[q] == before[q]);
            let gap: Seq<SpanV> = if i + 1 > 1 {
                seq![spanv("  "@, sep)]
            } else {
                seq![]
            };
            assert(line_view(spans@) =~= before + gap + seq![spanv(k@, key), spanv(seq![' '] + d@, sep)]);
        }
        used = sat_add(sat_add(sat_add(used, k.unicode_len()), d.unicode_len()), 3);
        i = i + 1;
    }
    assert(hv.take(hs@.len() as int) =~= hv);
    let pad: u128 = if (width as usize) > used {
        (width as usize - used) as u128
    } else {
        0
    };
    let ghost before = line_view(spans@);
    spans.push(Span { text: crate::ui::styled::repeated(' ', pad), style: sep });
    assert(line_view(spans@) =~= before + seq![spanv(repeat(' ', sub0(width as int, hints_width(hv)) as nat), sep)]);
    spans
}

} // verus!
