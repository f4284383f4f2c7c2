//! The Extensions tab of the settings: one row per installed extension and
//! the details of the selected one.
use vstd::prelude::*;
use vstd::string::*;

use crate::config::theme::{parse_color_spec, Color, Theme};
use crate::extensions::manifest::{dangerous, Language, Manifest};
use crate::extensions::ExtensionEntry;
use crate::text::{join_with, joined, views};
use crate::ui::styled::{bold, fg_style, line_view, lines_view, push_str, spanv, Span, SpanV, Style};

verus! {

/// The row of an extension: the selection marker, `●` (enabled, accent) or
/// `○` (disabled), its name and version, `⚠` in yellow when it asks for
/// dangerous permissions, and its author.
pub open spec fn ext_item_spec(m: Manifest, sel: bool, t: Theme) -> Seq<SpanV> {
    let accent = parse_color_spec(t.accent@);
    let inactive = parse_color_spec(t.tab_inactive@);
    let style = if sel {
        bold(fg_style(accent))
    } else {
        fg_style(parse_color_spec(t.fg@))
    };
    seq![
        spanv((if sel { "▸"@ } else { " "@ }) + " "@, style),
        spanv((if m.enabled { "●"@ } else { "○"@ }) + " "@, fg_style(if m.enabled { accent } else { inactive })),
        spanv(m.name@ + " v"@ + m.version@, style),
        spanv(if dangerous(m) { " ⚠"@ } else { ""@ }, fg_style(Color::Yellow)),
        spanv("  — "@ + m.author@, fg_style(inactive)),
    ]
}

/// The rows of the list; without extensions, a note.
pub open spec fn ext_items_spec(ms: Seq<Manifest>, selected: int, t: Theme) -> Seq<Seq<SpanV>> {
    if ms.len() == 0 {
        seq![seq![spanv("  Sin extensiones instaladas."@, fg_style(parse_color_spec(t.tab_inactive@)))]]
    } else {
        Seq::new(ms.len(), |i: int| ext_item_spec(ms[i], i == selected, t))
    }
}

/// The manifests of the entries.
pub open spec fn manifests<R>(es: Seq<ExtensionEntry<R>>) -> Seq<Manifest> {
    es.map_values(|e: ExtensionEntry<R>| e.manifest)
}

/// The row of the extension `m`.
fn ext_item(m: &Manifest, sel: bool, theme: &Theme) -> (r: Vec<Span>)
    ensures
        line_view(r@) == ext_item_spec(*m, sel, *theme),
{
    let accent = Theme::parse_color(theme.accent.as_str());
    let inactive = Theme::parse_color(theme.tab_inactive.as_str());
    let style = if sel {
        Style::fg(accent).bold()
    } else {
        Style::fg(Theme::parse_color(theme.fg.as_str()))
    };
    let mut a = String::from_str(if sel {
        "▸"
    } else {
        " "
    });
    push_str(&mut a, " ");
    let mut b = String::from_str(if m.enabled {
        "●"
    } else {
        "○"
    });
    push_str(&mut b, " ");
    let mut c = m.name.clone();
    push_str(&mut c, " v");
    push_str(&mut c, m.version.as_str());
    let d = String::from_str(if m.has_dangerous_permissions() {
        " ⚠"
    } else {
        ""
    });
    let mut e = String::from_str("  — ");
    push_str(&mut e, m.author.as_str());
    let mut l: Vec<Span> = Vec::new();
    l.push(Span { text: a, style });
    l.push(Span { text: b, style: Style::fg(if m.enabled { accent } else { inactive }) });
    l.push(Span { text: c, style });
    l.push(Span { text: d, style: Style::fg(Color::Yellow) });
    l.push(Span { text: e, style: Style::fg(inactive) });
    assert(line_view(l@) =~= ext_item_spec(*m, sel, *theme));
    l
}

/// The rows of the list of `exts`, `selected` the selected one.
pub fn extension_items<R>(exts: &Vec<ExtensionEntry<R>>, selected: usize, theme: &Theme) -> (r: Vec<Vec<Span>>)
    ensures
        lines_view(r@) == ext_items_spec(manifests(exts@), selected as int, *theme),
{
    let ghost want = ext_items_spec(manifests(exts@), selected as int, *theme);
    let mut out: Vec<Vec<Span>> = Vec::new();
    if exts.len() == 0 {
        let mut l: Vec<Span> = Vec::new();
        l.push(Span { text: String::from_str("  Sin extensiones instaladas."), style: Style::fg(Theme::parse_color(theme.tab_inactive.as_str())) });
        assert(line_view(l@) =~= want[0]);
        out.push(l);
        assert(lines_view(out@) =~= want);
        return out;
    }
    let mut i: usize = 0;
    while i < exts.len()
        invariant
            i <= exts@.len(),
            exts@.len() > 0,
            want == ext_items_spec(manifests(exts@), selected as int, *theme),
            lines_view(out@) =~= want.take(i as int),
        decreases exts.len() - i,
    {
        let l = ext_item(&exts[i].manifest, i == selected, theme);
        assert(manifests(exts@)[i as int] == exts@[i as int].manifest);
        let ghost before = lines_view(out@);
        out.push(l);
        assert(lines_view(out@) =~= before.push(want[i as int]));
        assert(want.take(i + 1) =~= want.take(i as int).push(want[i as int]));
        i = i + 1;
    }
    assert(want.take(exts@.len() as int) =~= want);
    out
}

/// How a language is named in the details.
pub open spec fn language_name(l: Language) -> Seq<char> {
    match l {
        Language::Lua => "Lua"@,
        Language::Rhai => "Rhai"@,
    }
}

/// The permissions as one text: joined with commas, or `ninguno`.
pub open spec fn perms_text(ps: Seq<Seq<char>>) -> Seq<char> {
    if ps.len() == 0 {
        "ninguno"@
    } else {
        joined(ps, ", "@)
    }
}

/// The details of the extension `m`: its description, language and state,
/// its permissions, and the keys.
pub open spec fn ext_detail_spec(m: Manifest, t: Theme) -> Seq<Seq<SpanV>> {
    let accent = fg_style(parse_color_spec(t.accent@));
    let fg = fg_style(parse_color_spec(t.fg@));
    let inactive = parse_color_spec(t.tab_inactive@);
    seq![
        seq![spanv("Descripción: "@, accent), spanv(m.description@, fg)],
        seq![
            spanv("Lenguaje: "@, accent),
            spanv(language_name(m.language), fg),
            spanv("   Estado: "@, accent),
            spanv(if m.enabled { "ACTIVA"@ } else { "INACTIVA"@ }, if m.enabled { accent } else { fg_style(inactive) }),
        ],
        seq![spanv("Permisos: "@, accent), spanv(perms_text(views(m.permissions@)), fg)],
        seq![spanv(" Space/Enter=activar/desactivar   Del=desinstalar"@, fg_style(inactive))],
    ]
}

/// The text for a list of permissions.
pub fn permissions_text(ps: &Vec<String>) -> (r: String)
    ensures
        r@ == perms_text(views(ps@)),
{
    if ps.len() == 0 {
        String::from_str("ninguno")
    } else {
        join_with(ps, ", ")
    }
}

/// The details of the extension of manifest `m`.
pub fn extension_detail(m: &Manifest, theme: &Theme) -> (r: Vec<Vec<Span>>)
    ensures
        lines_view(r@) == ext_detail_spec(*m, *theme),
{
    let accent = Style::fg(Theme::parse_color(theme.accent.as_str()));
    let fg = Style::fg(Theme::parse_color(theme.fg.as_str()));
    let inactive = Style::fg(Theme::parse_color(theme.tab_inactive.as_str()));
    let mut l1: Vec<Span> = Vec::new();
    l1.push(Span { text: String::from_str("Descripción: "), style: accent });
    l1.push(Span { text: m.description.clone(), style: fg });
    let mut l2: Vec<Span> = Vec::new();
    l2.push(Span { text: String::from_str("Lenguaje: "), style: accent });
    l2.push(Span {
        text: String::from_str(match m.language {
            Language::Lua => "Lua",
            Language::Rhai => "Rhai",
        }),
        style: fg,
    });
    l2.push(Span { text: String::from_str("   Estado: "), style: accent });
    l2.push(Span {
        text: String::from_str(if m.enabled {
            "ACTIVA"
        } else {
            "INACTIVA"
        }),
        style: if m.enabled {
            accent
        } else {
            inactive
        },
    });
    let mut l3: Vec<Span> = Vec::new();
    l3.push(Span { text: String::from_str("Permisos: "), style: accent });
    l3.push(Span { text: permissions_text(&m.permissions), style: fg });
    let mut l4: Vec<Span> = Vec::new();
    l4.push(Span { text: String::from_str(" Space/Enter=activar/desactivar   Del=desinstalar"), style: inactive });
    let mut out: Vec<Vec<Span>> = Vec::new();
    out.push(l1);
    out.push(l2);
    out.push(l3);
    out.push(l4);
    let ghost want = ext_detail_spec(*m, *theme);
    assert(line_view(out@[0]@) =~= want[0]);
    assert(line_view(out@[1]@) =~= want[1]);
    assert(line_view(out@[2]@) =~= want[2]);
    assert(line_view(out@[3]@) =~= want[3]);
    assert(lines_view(out@) =~= want);
    out
}

} // verus!
