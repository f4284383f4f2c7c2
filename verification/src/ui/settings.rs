//! The settings window: its Extensions tab and the confirmation asked before
//! an extension is enabled or after one is installed.
use vstd::prelude::*;

use crate::extensions::manifest::Manifest;
use crate::extensions::{ExtRuntime, ExtensionEntry, ExtensionManager};
use crate::keys::{Key, KeyCode};
use crate::config::theme::{parse_color_spec, Color, Theme};
use crate::modes::SettingsTab;
use crate::text::{find_str, views};
use crate::ui::extension_list::{permissions_text, perms_text};
use crate::ui::styled::{bold, fg_style, line_view, lines_view, plain, push_str, spanv, Span, SpanV, Style};
use vstd::string::*;

verus! {

/// The confirmation shown before an extension is enabled (or after one is
/// installed, disabled): who made it and what it may do.
pub struct WarningDialog {
    pub ext_name: String,
    pub ext_version: String,
    pub ext_author: String,
    pub permissions: Vec<String>,
    /// Confirming enables the extension (else it was just installed).
    pub is_enable: bool,
    /// The extension's position in the list, when confirming enables it.
    pub ext_idx: Option<usize>,
}

/// The dialog shows the manifest `m`.
pub open spec fn shows(d: WarningDialog, m: Manifest) -> bool {
    &&& d.ext_name@ == m.name@
    &&& d.ext_version@ == m.version@
    &&& d.ext_author@ == m.author@
    &&& crate::text::views(d.permissions@) == crate::text::views(m.permissions@)
}

fn clone_strings(v: &Vec<String>) -> (r: Vec<String>)
    ensures
        crate::text::views(r@) == crate::text::views(v@),
{
    let mut out: Vec<String> = Vec::new();
    let mut i: usize = 0;
    while i < v.len()
        invariant
            i <= v.len(),
            crate::text::views(out@) == crate::text::views(v@).take(i as int),
        decreases v.len() - i,
    {
        let s = v[i].clone();
        let ghost before = crate::text::views(out@);
        out.push(s);
        assert(crate::text::views(out@) =~= before.push(s@));
        assert(crate::text::views(v@).take(i + 1) =~= crate::text::views(v@).take(i as int).push(v@[i as int]@));
        i = i + 1;
    }
    assert(crate::text::views(v@).take(v.len() as int) =~= crate::text::views(v@));
    out
}

impl WarningDialog {
    /// The confirmation before enabling the extension at position `idx`,
    /// whose manifest is `m`.
    pub fn for_enable(m: &Manifest, idx: usize) -> (r: Self)
        ensures
            shows(r, *m),
            r.is_enable,
            r.ext_idx == Some(idx),
    {
        WarningDialog {
            ext_name: m.name.clone(),
            ext_version: m.version.clone(),
            ext_author: m.author.clone(),
            permissions: clone_strings(&m.permissions),
            is_enable: true,
            ext_idx: Some(idx),
        }
    }

    /// The notice after installing the extension whose manifest is `m`; the
    /// extension stays disabled.
    pub fn for_install(m: &Manifest) -> (r: Self)
        ensures
            shows(r, *m),
            !r.is_enable,
            r.ext_idx is None,
    {
        WarningDialog {
            ext_name: m.name.clone(),
            ext_version: m.version.clone(),
            ext_author: m.author.clone(),
            permissions: clone_strings(&m.permissions),
            is_enable: false,
            ext_idx: None,
        }
    }
}

/// Whether the permissions hold `fs.write` or `process.run`.
pub open spec fn dangerous_perms(ps: Seq<Seq<char>>) -> bool {
    ps.contains("fs.write"@) || ps.contains("process.run"@)
}

/// The lines of the confirmation dialog `d`: the warning, who made the
/// extension, what it may do (with a note when that is dangerous), the
/// disclaimer, and the two choices.
pub open spec fn warning_lines_spec(d: WarningDialog, t: Theme) -> Seq<Seq<SpanV>> {
    let accent = parse_color_spec(t.accent@);
    let fg = fg_style(parse_color_spec(t.fg@));
    let bg = parse_color_spec(t.bg@);
    let inactive = fg_style(parse_color_spec(t.tab_inactive@));
    let yellow = fg_style(Color::Yellow);
    let verb = if d.is_enable {
        "ACTIVAR"@
    } else {
        "INSTALAR"@
    };
    let head: Seq<Seq<SpanV>> = seq![
        seq![spanv("  ⚠  EXTENSIÓN DE TERCEROS — "@ + verb + "  "@, bold(yellow))],
        seq![],
        seq![
            spanv("  Extensión: "@, fg_style(accent)),
            spanv("\""@ + d.ext_name@ + "\" v"@ + d.ext_version@ + " por "@ + d.ext_author@, fg),
        ],
        seq![spanv("  Permisos:  "@, fg_style(accent)), spanv(perms_text(views(d.permissions@)), fg)],
        seq![],
    ];
    let danger: Seq<Seq<SpanV>> = if dangerous_perms(views(d.permissions@)) {
        seq![seq![spanv("  ⚠ Esta extensión tiene permisos peligrosos (fs.write / process.run)."@, yellow)], seq![]]
    } else {
        seq![]
    };
    let tail: Seq<Seq<SpanV>> = seq![
        seq![spanv("  Las extensiones son código externo no revisado por SDRX Mimic."@, fg)],
        seq![spanv("  Pueden contener código malicioso. Instala solo de fuentes confiables."@, fg)],
        seq![],
        seq![spanv("  El creador de SDRX Mimic no se responsabiliza de daños"@, inactive)],
        seq![spanv("  causados por extensiones de terceros."@, inactive)],
        seq![],
        seq![
            spanv("  "@, plain()),
            spanv(" Y  Confirmar "@, bold(Style { bg: Some(accent), ..fg_style(bg) })),
            spanv("    "@, plain()),
            spanv(" N / Esc  Cancelar "@, Style { bg: Some(parse_color_spec(t.border@)), ..fg }),
        ],
    ];
    head + danger + tail
}

fn one(t: &str, st: Style) -> (r: Vec<Span>)
    ensures
        line_view(r@) == seq![spanv(t@, st)],
{
    let mut l: Vec<Span> = Vec::new();
    l.push(Span { text: String::from_str(t), style: st });
    assert(line_view(l@) =~= seq![spanv(t@, st)]);
    l
}

fn two(a: String, sa: Style, b: String, sb: Style) -> (r: Vec<Span>)
    ensures
        line_view(r@) == seq![spanv(a@, sa), spanv(b@, sb)],
{
    let mut l: Vec<Span> = Vec::new();
    l.push(Span { text: a, style: sa });
    l.push(Span { text: b, style: sb });
    assert(line_view(l@) =~= seq![spanv(a@, sa), spanv(b@, sb)]);
    l
}

impl WarningDialog {
    /// The lines of the dialog in the colors of `theme`.
    pub fn lines(&self, theme: &Theme) -> (r: Vec<Vec<Span>>)
        ensures
            lines_view(r@) == warning_lines_spec(*self, *theme),
    {
        let accent = Theme::parse_color(theme.accent.as_str());
        let fg = Style::fg(Theme::parse_color(theme.fg.as_str()));
        let bg = Theme::parse_color(theme.bg.as_str());
        let inactive = Style::fg(Theme::parse_color(theme.tab_inactive.as_str()));
        let yellow = Style::fg(Color::Yellow);
        let mut head = String::from_str("  ⚠  EXTENSIÓN DE TERCEROS — ");
        push_str(&mut head, if self.is_enable {
            "ACTIVAR"
        } else {
            "INSTALAR"
        });
        push_str(&mut head, "  ");
        let mut who = String::from_str("\"");
        push_str(&mut who, self.ext_name.as_str());
        push_str(&mut who, "\" v");
        push_str(&mut who, self.ext_version.as_str());
        push_str(&mut who, " por ");
        push_str(&mut who, self.ext_author.as_str());
        let mut out: Vec<Vec<Span>> = Vec::new();
        let mut l0: Vec<Span> = Vec::new();
        l0.push(Span { text: head, style: yellow.bold() });
        assert(line_view(l0@) =~= warning_lines_spec(*self, *theme)[0]);
        out.push(l0);
        out.push(Vec::new());
        out.push(two(String::from_str("  Extensión: "), Style::fg(accent), who, fg));
        out.push(two(String::from_str("  Permisos:  "), Style::fg(accent), permissions_text(&self.permissions), fg));
        out.push(Vec::new());
        let ghost want = warning_lines_spec(*self, *theme);
        assert(forall|i: int| 0 <= i < 5 ==> lines_view(out@)[i] =~= want[i]);
        let fs = find_str(&self.permissions, "fs.write");
        let pr = find_str(&self.permissions, "process.run");
        let danger = fs.is_some() || pr.is_some();
        proof {
            let v = views(self.permissions@);
            if fs is Some {
                assert(v[fs->0 as int] == "fs.write"@);
            }
            if pr is Some {
                assert(v[pr->0 as int] == "process.run"@);
            }
            if fs is None && v.contains("fs.write"@) {
                let j = choose|j: int| 0 <= j < v.len() && v[j] == "fs.write"@;
                assert(self.permissions@[j]@ == "fs.write"@);
            }
            if pr is None && v.contains("process.run"@) {
                let j = choose|j: int| 0 <= j < v.len() && v[j] == "process.run"@;
                assert(self.permissions@[j]@ == "process.run"@);
            }
            assert(danger == dangerous_perms(v));
        }
        let ghost before = lines_view(out@);
        if danger {
            out.push(one("  ⚠ Esta extensión tiene permisos peligrosos (fs.write / process.run).", yellow));
            out.push(Vec::new());
        }
        let ghost mid = lines_view(out@);
        out.push(one("  Las extensiones son código externo no revisado por SDRX Mimic.", fg));
        out.push(one("  Pueden contener código malicioso. Instala solo de fuentes confiables.", fg));
        out.push(Vec::new());
        out.push(one("  El creador de SDRX Mimic no se responsabiliza de daños", inactive));
        out.push(one("  causados por extensiones de terceros.", inactive));
        out.push(Vec::new());
        let mut last: Vec<Span> = Vec::new();
        last.push(Span { text: String::from_str("  "), style: Style::plain() });
        last.push(Span { text: String::from_str(" Y  Confirmar "), style: Style::fg(bg).on(accent).bold() });
        last.push(Span { text: String::from_str("    "), style: Style::plain() });
        last.push(Span { text: String::from_str(" N / Esc  Cancelar "), style: fg.on(Theme::parse_color(theme.border.as_str())) });
        out.push(last);
        proof {
            let head_s = want.take(5);
            let k = if danger { 2int } else { 0int };
            assert(before =~= head_s) by {
                assert(forall|i: int| 0 <= i < 5 ==> before[i] =~= want[i]);
            }
            assert(mid.len() == 5 + k);
            assert(lines_view(out@).len() == want.len());
            assert(forall|i: int| 0 <= i < 5 + k ==> lines_view(out@)[i] == mid[i]);
            assert(forall|i: int| 0 <= i < lines_view(out@).len() ==> lines_view(out@)[i] =~= want[i]);
        }
        assert(lines_view(out@) =~= want);
        out
    }
}

/// The tab bar of the settings window: the two tabs, the active one on the
/// active tab color in bold accent, and the keys.
pub open spec fn settings_tabs_spec(tab: SettingsTab, t: Theme) -> Seq<SpanV> {
    let accent = parse_color_spec(t.accent@);
    let fg = parse_color_spec(t.fg@);
    let bg = parse_color_spec(t.bg@);
    let on = bold(Style { bg: Some(parse_color_spec(t.tab_active@)), ..fg_style(accent) });
    let off = Style { bg: Some(parse_color_spec(t.tab_inactive@)), ..fg_style(fg) };
    seq![
        spanv(" Extensiones [BETA] "@, if tab == SettingsTab::Extensions { on } else { off }),
        spanv("  "@, Style { bg: Some(bg), ..plain() }),
        spanv(" Temas "@, if tab == SettingsTab::Themes { on } else { off }),
        spanv("  Tab=cambiar   Esc=cerrar"@, Style { bg: Some(bg), ..fg_style(parse_color_spec(t.tab_inactive@)) }),
    ]
}

/// The tab bar of the settings window with `tab` active.
pub fn settings_tabs(tab: SettingsTab, theme: &Theme) -> (r: Vec<Span>)
    ensures
        line_view(r@) == settings_tabs_spec(tab, *theme),
{
    let accent = Theme::parse_color(theme.accent.as_str());
    let fg = Theme::parse_color(theme.fg.as_str());
    let bg = Theme::parse_color(theme.bg.as_str());
    let on = Style::fg(accent).on(Theme::parse_color(theme.tab_active.as_str())).bold();
    let off = Style::fg(fg).on(Theme::parse_color(theme.tab_inactive.as_str()));
    let mut l: Vec<Span> = Vec::new();
    l.push(Span { text: String::from_str(" Extensiones [BETA] "), style: if tab == SettingsTab::Extensions { on } else { off } });
    l.push(Span { text: String::from_str("  "), style: Style::plain().on(bg) });
    l.push(Span { text: String::from_str(" Temas "), style: if tab == SettingsTab::Themes { on } else { off } });
    l.push(Span {
        text: String::from_str("  Tab=cambiar   Esc=cerrar"),
        style: Style::fg(Theme::parse_color(theme.tab_inactive.as_str())).on(bg),
    });
    assert(line_view(l@) =~= settings_tabs_spec(tab, *theme));
    l
}

/// What the application is to do after a key press in the settings window.
pub enum SettingsAction {
    Nothing,
    /// Esc: close the settings.
    Leave,
    /// The Themes tab takes the key.
    ThemeKey,
    /// The selected extension was enabled: disable it (no confirmation).
    Disable(usize),
    /// The selected extension was disabled: ask before enabling it.
    Confirm(WarningDialog),
    /// Delete: uninstall the extension of this name; once that is done the
    /// selection moves up one.
    Remove(String),
}

/// Handles the key press `key` in the settings window, on the tab `tab`,
/// with `selected` the selected extension of the list `exts`. Keys that
/// reach the Themes tab are left to it.
pub fn settings_key<R>(
    tab: &mut SettingsTab,
    selected: &mut usize,
    exts: &Vec<ExtensionEntry<R>>,
    key: Key,
) -> (r: SettingsAction)
    ensures
        *old(tab) == SettingsTab::Themes ==> {
            &&& *final(selected) == *old(selected)
            &&& if key.code == KeyCode::Esc {
                r is Leave && *final(tab) == SettingsTab::Themes
            } else if key.code == KeyCode::Tab || key.code == KeyCode::Char('1') {
                r is Nothing && *final(tab) == SettingsTab::Extensions
            } else {
                r is ThemeKey && *final(tab) == SettingsTab::Themes
            }
        },
        *old(tab) == SettingsTab::Extensions ==> {
            let (c, s, n) = (key.code, *old(selected), exts@.len());
            if c == KeyCode::Esc {
                r is Leave && *final(tab) == *old(tab) && *final(selected) == s
            } else if c == KeyCode::Tab || c == KeyCode::Char('2') {
                r is Nothing && *final(tab) == SettingsTab::Themes && *final(selected) == s
            } else if c == KeyCode::Char('j') || c == KeyCode::Down {
                r is Nothing && *final(tab) == *old(tab) && *final(selected) == (if s + 1 < n {
                    s + 1
                } else {
                    s as int
                })
            } else if c == KeyCode::Char('k') || c == KeyCode::Up {
                r is Nothing && *final(tab) == *old(tab) && *final(selected) == (if s > 0 {
                    s - 1
                } else {
                    0
                })
            } else if c == KeyCode::Char(' ') || c == KeyCode::Enter {
                &&& *final(tab) == *old(tab) && *final(selected) == s
                &&& s < n && exts@[s as int].manifest.enabled ==> (r matches SettingsAction::Disable(i)
                    && i == s)
                &&& s < n && !exts@[s as int].manifest.enabled ==> (r matches SettingsAction::Confirm(d)
                    && shows(d, exts@[s as int].manifest) && d.is_enable && d.ext_idx == Some(s))
                &&& s >= n ==> r is Nothing
            } else if c == KeyCode::Delete {
                &&& *final(tab) == *old(tab) && *final(selected) == s
                &&& s < n ==> (r matches SettingsAction::Remove(x) && x@ == exts@[s as int].manifest.name@)
                &&& s >= n ==> r is Nothing
            } else {
                r is Nothing && *final(tab) == *old(tab) && *final(selected) == s
            }
        },
{
    let c = key.code;
    match *tab {
        SettingsTab::Themes => {
            if c == KeyCode::Esc {
                SettingsAction::Leave
            } else if c == KeyCode::Tab || c == KeyCode::Char('1') {
                *tab = SettingsTab::Extensions;
                SettingsAction::Nothing
            } else {
                SettingsAction::ThemeKey
            }
        },
        SettingsTab::Extensions => {
            let n = exts.len();
            let s = *selected;
            if c == KeyCode::Esc {
                SettingsAction::Leave
            } else if c == KeyCode::Tab || c == KeyCode::Char('2') {
                *tab = SettingsTab::Themes;
                SettingsAction::Nothing
            } else if c == KeyCode::Char('j') || c == KeyCode::Down {
                if s < n && s + 1 < n {
                    *selected = s + 1;
                }
                SettingsAction::Nothing
            } else if c == KeyCode::Char('k') || c == KeyCode::Up {
                if s > 0 {
                    *selected = s - 1;
                }
                SettingsAction::Nothing
            } else if c == KeyCode::Char(' ') || c == KeyCode::Enter {
                if s < n {
                    if exts[s].manifest.enabled {
                        SettingsAction::Disable(s)
                    } else {
                        SettingsAction::Confirm(WarningDialog::for_enable(&exts[s].manifest, s))
                    }
                } else {
                    SettingsAction::Nothing
                }
            } else if c == KeyCode::Delete {
                if s < n {
                    SettingsAction::Remove(exts[s].manifest.name.clone())
                } else {
                    SettingsAction::Nothing
                }
            } else {
                SettingsAction::Nothing
            }
        },
    }
}

/// What came of a key press on the confirmation dialog.
pub enum WarningOutcome {
    Nothing,
    /// Confirmed: the extension of this name was enabled (when the dialog
    /// was for enabling, and the position still held an extension); the
    /// extensions are to be reloaded.
    Confirmed(Option<String>),
    /// Declined: the dialog for the extension of this name was closed.
    Cancelled(String),
}

/// Handles the key press `key` while the confirmation dialog `dialog` is
/// shown. Only `y` or `Y` enables the extension the dialog is about; any
/// other key leaves every extension's enabled flag as it was.
pub fn warning_key<R: ExtRuntime>(
    dialog: &mut Option<WarningDialog>,
    manager: &mut ExtensionManager<R>,
    key: Key,
) -> (r: WarningOutcome)
    ensures
        final(manager).extensions@.len() == old(manager).extensions@.len(),
        final(manager).extensions_dir_spec() == old(manager).extensions_dir_spec(),
        final(manager).vault_root_spec() == old(manager).vault_root_spec(),
        key.code == KeyCode::Char('y') || key.code == KeyCode::Char('Y') ==> {
            &&& (*final(dialog)) is None
            &&& match *old(dialog) {
                Some(d) => {
                    let en = d.is_enable && d.ext_idx is Some && d.ext_idx->0 < old(manager).extensions@.len();
                    &&& en ==> {
                        let i = d.ext_idx->0 as int;
                        &&& final(manager).extensions@[i].manifest.enabled
                        &&& (r matches WarningOutcome::Confirmed(Some(x)) && x@ == d.ext_name@)
                        &&& forall|j: int|
                            0 <= j < old(manager).extensions@.len() && j != i ==> #[trigger] final(manager).extensions@[j] == old(manager).extensions@[j]
                    }
                    &&& !en ==> (final(manager).extensions == old(manager).extensions && r matches WarningOutcome::Confirmed(None))
                },
                None => final(manager).extensions == old(manager).extensions && r is Nothing,
            }
        },
        !(key.code == KeyCode::Char('y') || key.code == KeyCode::Char('Y')) ==> final(manager).extensions
            == old(manager).extensions,
        key.code == KeyCode::Char('n') || key.code == KeyCode::Char('N') || key.code == KeyCode::Esc ==> {
            &&& (*final(dialog)) is None
            &&& match *old(dialog) {
                Some(d) => if d.ext_name@.len() > 0 {
                    (r matches WarningOutcome::Cancelled(x) && x@ == d.ext_name@)
                } else {
                    r is Nothing
                },
                None => r is Nothing,
            }
        },
        !(key.code == KeyCode::Char('y') || key.code == KeyCode::Char('Y') || key.code == KeyCode::Char(
            'n',
        ) || key.code == KeyCode::Char('N') || key.code == KeyCode::Esc) ==> *final(dialog)
            == *old(dialog) && r is Nothing,
{
    let c = key.code;
    if c == KeyCode::Char('y') || c == KeyCode::Char('Y') {
        match dialog.take() {
            Some(d) => {
                match d.ext_idx {
                    Some(i) => {
                        if d.is_enable && i < manager.extensions.len() {
                            let _ = manager.enable(i);
                            return WarningOutcome::Confirmed(Some(d.ext_name));
                        }
                    },
                    None => {},
                }
                WarningOutcome::Confirmed(None)
            },
            None => WarningOutcome::Nothing,
        }
    } else if c == KeyCode::Char('n') || c == KeyCode::Char('N') || c == KeyCode::Esc {
        match dialog.take() {
            Some(d) => {
                if d.ext_name.as_str().unicode_len() > 0 {
                    WarningOutcome::Cancelled(d.ext_name)
                } else {
                    WarningOutcome::Nothing
                }
            },
            None => WarningOutcome::Nothing,
        }
    } else {
        WarningOutcome::Nothing
    }
}

} // verus!
