//! The Themes tab of the settings: choosing a preset, editing the colors of
//! the Custom preset, and naming themes to export or import.
use vstd::prelude::*;

use crate::config::theme::{field_names_spec, num_fields, parse_color_spec, preset_names_spec};
use crate::text::views;
use crate::ui::editor_view::pad_left;
use crate::ui::status::pad_right;
use crate::ui::styled::{bold, fg_style, line_view, lines_view, plain, push_repeat, push_str, spanv, Span, SpanV, Style};
use crate::config::{preset_theme, Config, Theme, CUSTOM_PRESET, FIXED_PRESETS};
use crate::keys::{Key, KeyCode};
use vstd::string::*;

use crate::text::{string_pop, string_push, trim, trim_spec};

verus! {

/// Which part of the Themes tab has the focus.
#[derive(Clone, Copy, Debug, PartialEq, Eq, Structural)]
pub enum ThemeEditorFocus {
    Presets,
    Fields,
}

pub struct ThemeEditorState {
    pub focus: ThemeEditorFocus,
    pub selected_preset: usize,
    pub selected_field: usize,
    /// A color value is being typed into `input_buffer`.
    pub editing: bool,
    pub input_buffer: String,
    /// A name to export the Custom theme under is being typed.
    pub exporting: bool,
    pub export_input: String,
    /// The name of a theme to import is being typed.
    pub importing: bool,
    pub import_input: String,
}

impl Default for ThemeEditorState {
    fn default() -> (r: Self)
        ensures
            r.focus == ThemeEditorFocus::Presets,
            r.selected_preset == 0,
            r.selected_field == 0,
            !r.editing && !r.exporting && !r.importing,
            r.input_buffer@.len() == 0,
            r.export_input@.len() == 0,
            r.import_input@.len() == 0,
    {
        ThemeEditorState {
            focus: ThemeEditorFocus::Presets,
            selected_preset: 0,
            selected_field: 0,
            editing: false,
            input_buffer: String::new(),
            exporting: false,
            export_input: String::new(),
            importing: false,
            import_input: String::new(),
        }
    }
}

/// The names of all presets: the fixed ones, then the user's themes.
pub open spec fn all_preset_names(users: Seq<(String, Theme)>) -> Seq<Seq<char>> {
    preset_names_spec() + users.map_values(|u: (String, Theme)| u.0@)
}

/// The style of preset `i` in the selector: reversed on the accent color
/// when selected with the focus there, bold accent when selected, else the
/// inactive color.
pub open spec fn preset_style(st: ThemeEditorState, i: int, t: Theme) -> Style {
    let accent = parse_color_spec(t.accent@);
    let bg = parse_color_spec(t.bg@);
    if i == st.selected_preset && st.focus == ThemeEditorFocus::Presets {
        bold(Style { bg: Some(accent), ..fg_style(bg) })
    } else if i == st.selected_preset {
        bold(fg_style(accent))
    } else {
        Style { bg: Some(bg), ..fg_style(parse_color_spec(t.tab_inactive@)) }
    }
}

/// The spans of the first `n` presets of the selector after its leading
/// space: each name between spaces, then a gap.
pub open spec fn preset_spans_spec(names: Seq<Seq<char>>, st: ThemeEditorState, t: Theme, n: int) -> Seq<SpanV>
    decreases n,
{
    if n <= 0 {
        seq![spanv(" "@, Style { bg: Some(parse_color_spec(t.bg@)), ..plain() })]
    } else {
        preset_spans_spec(names, st, t, n - 1) + seq![
            spanv(" "@ + names[n - 1] + " "@, preset_style(st, n - 1, t)),
            spanv("  "@, Style { bg: Some(parse_color_spec(t.bg@)), ..plain() }),
        ]
    }
}

impl ThemeEditorState {
    /// The preset selector: every preset, the fixed ones and then the
    /// user's themes `users`.
    pub fn preset_spans(&self, theme: &Theme, users: &Vec<(String, Theme)>) -> (r: Vec<Span>)
        requires
            4 + users@.len() <= usize::MAX,
        ensures
            line_view(r@) == preset_spans_spec(all_preset_names(users@), *self, *theme, 4 + users@.len() as int),
    {
        let ghost names = all_preset_names(users@);
        let accent = Theme::parse_color(theme.accent.as_str());
        let bg = Theme::parse_color(theme.bg.as_str());
        let inactive = Theme::parse_color(theme.tab_inactive.as_str());
        let gap = Style::plain().on(bg);
        let fixed = Theme::preset_names();
        let n = fixed.len() + users.len();
        let mut spans: Vec<Span> = Vec::new();
        spans.push(Span { text: String::from_str(" "), style: gap });
        assert(line_view(spans@) =~= preset_spans_spec(names, *self, *theme, 0));
        let mut i: usize = 0;
        while i < n
            invariant
                i <= n,
                n == 4 + users@.len(),
                fixed@.len() == 4,
                forall|j: int| 0 <= j < 4 ==> (#[trigger] fixed@[j])@ == preset_names_spec()[j],
                names == all_preset_names(users@),
                accent == parse_color_spec(theme.accent@),
                bg == parse_color_spec(theme.bg@),
                inactive == parse_color_spec(theme.tab_inactive@),
                gap == (Style { bg: Some(bg), ..plain() }),
                line_view(spans@) == preset_spans_spec(names, *self, *theme, i as int),
            decreases n - i,
        {
            let name: &str = if i < 4 {
                fixed[i]
            } else {
                users[i - 4].0.as_str()
            };
            assert(name@ == names[i as int]);
            let style = if i == self.selected_preset && self.focus == ThemeEditorFocus::Presets {
                Style::fg(bg).on(accent).bold()
            } else if i == self.selected_preset {
                Style::fg(accent).bold()
            } else {
                Style::fg(inactive).on(bg)
            };
            let mut t = String::from_str(" ");
            push_str(&mut t, name);
            push_str(&mut t, " ");
            let ghost before = line_view(spans@);
            spans.push(Span { text: t, style });
            spans.push(Span { text: String::from_str("  "), style: gap });
            assert(line_view(spans@) =~= before + seq![
                spanv(" "@ + names[i as int] + " "@, preset_style(*self, i as int, *theme)),
                spanv("  "@, gap),
            ]);
            i = i + 1;
        }
        spans
    }

    /// The hint over the preset selector.
    pub fn preset_hint(&self) -> (r: &'static str)
        ensures
            r@ == (if self.focus == ThemeEditorFocus::Presets {
                " ←/→ elegir  Enter=aplicar  ↓=colores"@
            } else {
                " Tab=presets"@
            }),
    {
        if self.focus == ThemeEditorFocus::Presets {
            " ←/→ elegir  Enter=aplicar  ↓=colores"
        } else {
            " Tab=presets"
        }
    }

    /// The label over the colors: what Enter does, in bold accent when the
    /// colors have the focus.
    pub fn colors_label(&self, theme: &Theme) -> (r: Span)
        ensures
            span_view_of(r) == spanv(
                if self.selected_preset == CUSTOM_PRESET {
                    " Colores — Enter=editar"@
                } else {
                    " Colores — Enter auto-cambia a Custom"@
                },
                if self.focus == ThemeEditorFocus::Fields {
                    bold(fg_style(parse_color_spec(theme.accent@)))
                } else {
                    fg_style(parse_color_spec(theme.tab_inactive@))
                },
            ),
    {
        let style = if self.focus == ThemeEditorFocus::Fields {
            Style::fg(Theme::parse_color(theme.accent.as_str())).bold()
        } else {
            Style::fg(Theme::parse_color(theme.tab_inactive.as_str()))
        };
        let text = String::from_str(if self.selected_preset == 3 {
            " Colores — Enter=editar"
        } else {
            " Colores — Enter auto-cambia a Custom"
        });
        Span { text, style }
    }
}

/// A span as plain values.
pub open spec fn span_view_of(s: Span) -> SpanV {
    crate::ui::styled::span_view(s)
}

/// The row of color field `i`: its name left-aligned in 12 columns, its
/// value (the text being typed, when it is selected and edited)
/// right-aligned in 8, and a swatch of the color.
pub open spec fn field_row_spec(st: ThemeEditorState, t: Theme, i: int) -> Seq<SpanV> {
    let sel = i == st.selected_field && st.focus == ThemeEditorFocus::Fields;
    let shown = if sel && st.editing {
        st.input_buffer@
    } else {
        t@[i]
    };
    let accent = parse_color_spec(t.accent@);
    let fg = fg_style(parse_color_spec(t.fg@));
    let (name_style, val_style) = if sel {
        (bold(fg_style(accent)), fg)
    } else {
        (fg, fg_style(parse_color_spec(t.tab_inactive@)))
    };
    seq![
        spanv("  "@ + pad_right(field_names_spec()[i], 12), name_style),
        spanv(pad_left(shown, 8) + "  "@, val_style),
        spanv("██"@, fg_style(parse_color_spec(t@[i]))),
    ]
}

impl ThemeEditorState {
    /// The rows of the eleven color fields of `theme`.
    pub fn field_rows(&self, theme: &Theme) -> (r: Vec<Vec<Span>>)
        ensures
            r@.len() == num_fields(),
            forall|i: int| 0 <= i < num_fields() ==> line_view((#[trigger] r@[i])@) == field_row_spec(*self, *theme, i),
    {
        let accent = Theme::parse_color(theme.accent.as_str());
        let fg = Style::fg(Theme::parse_color(theme.fg.as_str()));
        let inactive = Style::fg(Theme::parse_color(theme.tab_inactive.as_str()));
        let fields = theme.fields();
        let mut out: Vec<Vec<Span>> = Vec::new();
        let mut i: usize = 0;
        while i < fields.len()
            invariant
                i <= fields@.len(),
                fields@.len() == num_fields(),
                forall|j: int|
                    0 <= j < num_fields() ==> (#[trigger] fields@[j]).0@ == field_names_spec()[j] && fields@[j].1@
                        == theme@[j],
                accent == parse_color_spec(theme.accent@),
                fg == fg_style(parse_color_spec(theme.fg@)),
                inactive == fg_style(parse_color_spec(theme.tab_inactive@)),
                out@.len() == i,
                forall|j: int| 0 <= j < i ==> line_view((#[trigger] out@[j])@) == field_row_spec(*self, *theme, j),
            decreases fields.len() - i,
        {
            let (name, val) = (fields[i].0, &fields[i].1);
            let sel = i == self.selected_field && self.focus == ThemeEditorFocus::Fields;
            let shown: &str = if sel && self.editing {
                self.input_buffer.as_str()
            } else {
                val.as_str()
            };
            let (ns, vs) = if sel {
                (Style::fg(accent).bold(), fg)
            } else {
                (fg, inactive)
            };
            let mut a = String::from_str("  ");
            push_str(&mut a, name);
            let nl = name.unicode_len();
            if nl < 12 {
                push_repeat(&mut a, ' ', (12 - nl) as u128);
            }
            let mut b = String::new();
            let sl = shown.unicode_len();
            if sl < 8 {
                push_repeat(&mut b, ' ', (8 - sl) as u128);
            }
            push_str(&mut b, shown);
            push_str(&mut b, "  ");
            assert(name@ == field_names_spec()[i as int]);
            assert(val@ == theme@[i as int]);
            assert(a@ =~= "  "@ + pad_right(field_names_spec()[i as int], 12));
            assert(b@ =~= pad_left(shown@, 8) + "  "@);
            let mut l: Vec<Span> = Vec::new();
            l.push(Span { text: a, style: ns });
            l.push(Span { text: b, style: vs });
            l.push(Span { text: String::from_str("██"), style: Style::fg(Theme::parse_color(val.as_str())) });
            assert(line_view(l@) =~= field_row_spec(*self, *theme, i as int));
            out.push(l);
            i = i + 1;
        }
        out
    }
}

/// The bottom row of the Themes tab: the name being typed for an export or
/// an import, else the keys of what has the focus.
pub open spec fn bottom_row_spec(st: ThemeEditorState, t: Theme) -> Seq<SpanV> {
    let accent = parse_color_spec(t.accent@);
    let fg = fg_style(parse_color_spec(t.fg@));
    let inactive = fg_style(parse_color_spec(t.tab_inactive@));
    if st.exporting {
        seq![
            spanv(" Exportar como: "@, bold(fg_style(accent))),
            spanv(st.export_input@, fg),
            spanv("█"@, fg_style(accent)),
            spanv("  Esc=cancelar"@, inactive),
        ]
    } else if st.importing {
        seq![
            spanv(" Importar tema: "@, bold(fg_style(accent))),
            spanv(st.import_input@, fg),
            spanv("█"@, fg_style(accent)),
            spanv("  Esc=cancelar"@, inactive),
        ]
    } else if st.editing {
        seq![spanv(" Enter=confirmar  Esc=cancelar"@, inactive)]
    } else if st.focus == ThemeEditorFocus::Presets {
        seq![spanv(" ←/→ preset  Enter=aplicar  e=exportar  i=importar  ↓=colores  Esc=cerrar"@, inactive)]
    } else {
        seq![spanv(" ↑/↓ campo  Enter=editar  e=exportar  i=importar  Tab=presets  Esc=cerrar"@, inactive)]
    }
}

impl ThemeEditorState {
    /// The bottom row of the Themes tab.
    pub fn bottom_row(&self, theme: &Theme) -> (r: Vec<Span>)
        ensures
            line_view(r@) == bottom_row_spec(*self, *theme),
    {
        let accent = Theme::parse_color(theme.accent.as_str());
        let fg = Style::fg(Theme::parse_color(theme.fg.as_str()));
        let inactive = Style::fg(Theme::parse_color(theme.tab_inactive.as_str()));
        let mut l: Vec<Span> = Vec::new();
        if self.exporting || self.importing {
            l.push(Span {
                text: String::from_str(if self.exporting {
                    " Exportar como: "
                } else {
                    " Importar tema: "
                }),
                style: Style::fg(accent).bold(),
            });
            l.push(Span {
                text: if self.exporting {
                    self.export_input.clone()
                } else {
                    self.import_input.clone()
                },
                style: fg,
            });
            l.push(Span { text: String::from_str("█"), style: Style::fg(accent) });
            l.push(Span { text: String::from_str("  Esc=cancelar"), style: inactive });
        } else {
            let help: &str = if self.editing {
                " Enter=confirmar  Esc=cancelar"
            } else if self.focus == ThemeEditorFocus::Presets {
                " ←/→ preset  Enter=aplicar  e=exportar  i=importar  ↓=colores  Esc=cerrar"
            } else {
                " ↑/↓ campo  Enter=editar  e=exportar  i=importar  Tab=presets  Esc=cerrar"
            };
            l.push(Span { text: String::from_str(help), style: inactive });
        }
        assert(line_view(l@) =~= bottom_row_spec(*self, *theme));
        l
    }
}

/// What the application is to do after a key press in the Themes tab.
pub enum ThemeEditorAction {
    Nothing,
    /// Esc: close the settings.
    Leave,
    /// Export the Custom theme under this name.
    Export(String),
    /// Import the theme of this name; if that works, Custom becomes the
    /// selected preset.
    Import(String),
    /// A color changed: save the configuration.
    Save,
    /// A preset was applied: save the configuration and show its name.
    Applied(String),
    /// The colors in use became the Custom preset: save the configuration
    /// and say so.
    SwitchedToCustom,
}

/// A text input after the key `code`: Backspace removes the last character,
/// a character is appended, other keys change nothing.
pub open spec fn edited(b: Seq<char>, code: KeyCode) -> Seq<char> {
    match code {
        KeyCode::Backspace => if b.len() > 0 {
            b.drop_last()
        } else {
            b
        },
        KeyCode::Char(c) => b.push(c),
        _ => b,
    }
}

/// How many presets there are: the fixed ones and the user's themes.
pub open spec fn total_presets(c: Config) -> int {
    FIXED_PRESETS + c.user_themes@.len()
}

/// The name shown for preset `idx`.
pub open spec fn preset_label(c: Config, idx: int) -> Seq<char> {
    if idx < FIXED_PRESETS {
        preset_names_spec()[idx]
    } else if idx - FIXED_PRESETS < c.user_themes@.len() {
        c.user_themes@[idx - FIXED_PRESETS].0@
    } else {
        Seq::empty()
    }
}

/// A theme's colors with field `idx` set to `v`; no field past the last.
pub open spec fn with_field(t: Seq<Seq<char>>, idx: int, v: Seq<char>) -> Seq<Seq<char>> {
    if idx < num_fields() {
        t.update(idx, v)
    } else {
        t
    }
}

/// The value of field `idx` of the colors `t`, empty past the last field.
pub open spec fn field_value(t: Seq<Seq<char>>, idx: int) -> Seq<char> {
    if idx < num_fields() {
        t[idx]
    } else {
        Seq::empty()
    }
}

/// `a` and `b` agree on everything but, maybe, the focus, the selections and
/// the flags named by the arguments set to false.
pub open spec fn agree(
    a: ThemeEditorState,
    b: ThemeEditorState,
    focus: bool,
    preset: bool,
    field: bool,
    edit: bool,
    export: bool,
    import: bool,
) -> bool {
    &&& focus ==> a.focus == b.focus
    &&& preset ==> a.selected_preset == b.selected_preset
    &&& field ==> a.selected_field == b.selected_field
    &&& edit ==> a.editing == b.editing && a.input_buffer@ == b.input_buffer@
    &&& export ==> a.exporting == b.exporting && a.export_input@ == b.export_input@
    &&& import ==> a.importing == b.importing && a.import_input@ == b.import_input@
}

/// The configuration is unchanged, as far as the Themes tab is concerned.
pub open spec fn same_config(a: Config, b: Config) -> bool {
    &&& a.theme@ == b.theme@
    &&& a.custom_theme@ == b.custom_theme@
    &&& a.active_preset == b.active_preset
    &&& a.user_themes == b.user_themes
    &&& a.settings == b.settings
}

/// A key press while an export name is typed.
pub open spec fn export_step(o: ThemeEditorState, n: ThemeEditorState, key: Key, r: ThemeEditorAction) -> bool {
    if key.code == KeyCode::Enter {
        &&& !n.exporting && n.export_input@.len() == 0
        &&& agree(o, n, true, true, true, true, false, true)
        &&& if trim_spec(o.export_input@).len() > 0 {
            r matches ThemeEditorAction::Export(x) && x@ == trim_spec(o.export_input@)
        } else {
            r is Nothing
        }
    } else if key.code == KeyCode::Esc {
        !n.exporting && n.export_input@.len() == 0 && agree(o, n, true, true, true, true, false, true)
            && r is Nothing
    } else {
        n.exporting && n.export_input@ == edited(o.export_input@, key.code) && agree(
            o,
            n,
            true,
            true,
            true,
            true,
            false,
            true,
        ) && r is Nothing
    }
}

/// A key press while an import name is typed.
pub open spec fn import_step(o: ThemeEditorState, n: ThemeEditorState, key: Key, r: ThemeEditorAction) -> bool {
    if key.code == KeyCode::Enter {
        &&& !n.importing && n.import_input@.len() == 0
        &&& agree(o, n, true, true, true, true, true, false)
        &&& if trim_spec(o.import_input@).len() > 0 {
            r matches ThemeEditorAction::Import(x) && x@ == trim_spec(o.import_input@)
        } else {
            r is Nothing
        }
    } else if key.code == KeyCode::Esc {
        !n.importing && n.import_input@.len() == 0 && agree(o, n, true, true, true, true, true, false)
            && r is Nothing
    } else {
        n.importing && n.import_input@ == edited(o.import_input@, key.code) && agree(
            o,
            n,
            true,
            true,
            true,
            true,
            true,
            false,
        ) && r is Nothing
    }
}

/// A key press while a color value is typed: Enter sets the selected field,
/// in the colors in use and in the Custom preset alike.
pub open spec fn edit_step(
    o: ThemeEditorState,
    n: ThemeEditorState,
    oc: Config,
    nc: Config,
    key: Key,
    r: ThemeEditorAction,
) -> bool {
    if key.code == KeyCode::Enter {
        &&& !n.editing
        &&& n.input_buffer@ == o.input_buffer@
        &&& agree(o, n, true, true, true, false, true, true)
        &&& nc.theme@ == with_field(oc.theme@, o.selected_field as int, o.input_buffer@)
        &&& nc.custom_theme@ == with_field(oc.custom_theme@, o.selected_field as int, o.input_buffer@)
        &&& nc.active_preset == oc.active_preset && nc.user_themes == oc.user_themes
        &&& nc.settings == oc.settings
        &&& r is Save
    } else if key.code == KeyCode::Esc {
        !n.editing && n.input_buffer@ == o.input_buffer@ && agree(o, n, true, true, true, false, true, true)
            && same_config(oc, nc) && r is Nothing
    } else {
        n.editing && n.input_buffer@ == edited(o.input_buffer@, key.code) && agree(
            o,
            n,
            true,
            true,
            true,
            false,
            true,
            true,
        ) && same_config(oc, nc) && r is Nothing
    }
}

/// A key press with the focus on the preset selector.
pub open spec fn presets_step(
    o: ThemeEditorState,
    n: ThemeEditorState,
    oc: Config,
    nc: Config,
    key: Key,
    r: ThemeEditorAction,
) -> bool {
    let c = key.code;
    let sp = o.selected_preset;
    if c == KeyCode::Enter {
        &&& agree(o, n, true, true, true, true, true, true)
        &&& nc.active_preset == sp
        &&& nc.theme@ == (match preset_theme(oc, sp as int) {
            Some(t) => t,
            None => oc.theme@,
        })
        &&& nc.custom_theme == oc.custom_theme && nc.user_themes == oc.user_themes
        &&& nc.settings == oc.settings
        &&& r matches ThemeEditorAction::Applied(x) && x@ == preset_label(oc, sp as int)
    } else {
        &&& same_config(oc, nc)
        &&& if c == KeyCode::Esc {
            agree(o, n, true, true, true, true, true, true) && r is Leave
        } else if c == KeyCode::Left || c == KeyCode::Char('h') {
            n.selected_preset == (if sp > 0 {
                sp - 1
            } else {
                0
            }) && agree(o, n, true, false, true, true, true, true) && r is Nothing
        } else if c == KeyCode::Right || c == KeyCode::Char('l') {
            n.selected_preset == (if sp + 1 < total_presets(oc) {
                sp + 1
            } else {
                sp as int
            }) && agree(o, n, true, false, true, true, true, true) && r is Nothing
        } else if c == KeyCode::Char('e') {
            n.exporting && n.export_input@.len() == 0 && agree(o, n, true, true, true, true, false, true)
                && r is Nothing
        } else if c == KeyCode::Char('i') {
            n.importing && n.import_input@.len() == 0 && agree(o, n, true, true, true, true, true, false)
                && r is Nothing
        } else if c == KeyCode::Down || c == KeyCode::Char('j') || c == KeyCode::Tab {
            n.focus == ThemeEditorFocus::Fields && agree(o, n, false, true, true, true, true, true)
                && r is Nothing
        } else {
            agree(o, n, true, true, true, true, true, true) && r is Nothing
        }
    }
}

/// A key press with the focus on the color fields. Enter starts typing a
/// value for the selected field, switching to the Custom preset first.
pub open spec fn fields_step(
    o: ThemeEditorState,
    n: ThemeEditorState,
    oc: Config,
    nc: Config,
    key: Key,
    r: ThemeEditorAction,
) -> bool {
    let c = key.code;
    let sf = o.selected_field;
    if c == KeyCode::Enter {
        &&& n.editing && n.input_buffer@ == field_value(oc.theme@, sf as int)
        &&& agree(o, n, true, o.selected_preset == CUSTOM_PRESET, true, false, true, true)
        &&& n.selected_preset == CUSTOM_PRESET
        &&& if o.selected_preset != CUSTOM_PRESET {
            &&& nc.active_preset == CUSTOM_PRESET
            &&& oc.active_preset != CUSTOM_PRESET ==> nc.custom_theme@ == oc.theme@
            &&& oc.active_preset == CUSTOM_PRESET ==> nc.custom_theme@ == oc.custom_theme@
            &&& nc.theme@ == oc.theme@ && nc.user_themes == oc.user_themes && nc.settings == oc.settings
            &&& r is SwitchedToCustom
        } else {
            same_config(oc, nc) && r is Nothing
        }
    } else {
        &&& same_config(oc, nc)
        &&& if c == KeyCode::Esc {
            agree(o, n, true, true, true, true, true, true) && r is Leave
        } else if (c == KeyCode::Tab && sf == 0) || c == KeyCode::Up || c == KeyCode::Char('k') {
            &&& if sf > 0 && c != KeyCode::Tab {
                n.selected_field == sf - 1 && agree(o, n, true, true, false, true, true, true)
            } else {
                n.focus == ThemeEditorFocus::Presets && agree(o, n, false, true, true, true, true, true)
            }
            &&& r is Nothing
        } else if c == KeyCode::Down || c == KeyCode::Char('j') {
            n.selected_field == (if sf + 1 < num_fields() {
                sf + 1
            } else {
                sf as int
            }) && agree(o, n, true, true, false, true, true, true) && r is Nothing
        } else if c == KeyCode::Char('e') {
            n.exporting && n.export_input@.len() == 0 && agree(o, n, true, true, true, true, false, true)
                && r is Nothing
        } else if c == KeyCode::Char('i') {
            n.importing && n.import_input@.len() == 0 && agree(o, n, true, true, true, true, true, false)
                && r is Nothing
        } else {
            agree(o, n, true, true, true, true, true, true) && r is Nothing
        }
    }
}

/// A key press in the Themes tab: the input being typed, if any, takes it;
/// else the focused part.
pub open spec fn theme_editor_step(
    o: ThemeEditorState,
    n: ThemeEditorState,
    oc: Config,
    nc: Config,
    key: Key,
    r: ThemeEditorAction,
) -> bool {
    if o.exporting {
        export_step(o, n, key, r) && same_config(oc, nc)
    } else if o.importing {
        import_step(o, n, key, r) && same_config(oc, nc)
    } else if o.editing {
        edit_step(o, n, oc, nc, key, r)
    } else if o.focus == ThemeEditorFocus::Presets {
        presets_step(o, n, oc, nc, key, r)
    } else {
        fields_step(o, n, oc, nc, key, r)
    }
}

fn edit_input(b: &mut String, code: KeyCode)
    ensures
        final(b)@ == edited(old(b)@, code),
{
    match code {
        KeyCode::Backspace => {
            let _ = string_pop(b);
        },
        KeyCode::Char(c) => {
            string_push(b, c);
        },
        _ => {},
    }
}

impl ThemeEditorState {
    /// Handles the key press `key`, changing the configuration where the tab
    /// does so itself; what is left to do comes back.
    pub fn handle_key(&mut self, config: &mut Config, key: Key) -> (r: ThemeEditorAction)
        requires
            total_presets(*old(config)) <= usize::MAX,
        ensures
            theme_editor_step(*old(self), *final(self), *old(config), *final(config), key, r),
    {
        let c = key.code;
        if self.exporting {
            if c == KeyCode::Enter {
                let name = trim(self.export_input.as_str());
                self.exporting = false;
                self.export_input = String::new();
                if name.as_str().unicode_len() > 0 {
                    return ThemeEditorAction::Export(name);
                }
                return ThemeEditorAction::Nothing;
            } else if c == KeyCode::Esc {
                self.exporting = false;
                self.export_input = String::new();
                return ThemeEditorAction::Nothing;
            }
            edit_input(&mut self.export_input, c);
            return ThemeEditorAction::Nothing;
        }
        if self.importing {
            if c == KeyCode::Enter {
                let name = trim(self.import_input.as_str());
                self.importing = false;
                self.import_input = String::new();
                if name.as_str().unicode_len() > 0 {
                    return ThemeEditorAction::Import(name);
                }
                return ThemeEditorAction::Nothing;
            } else if c == KeyCode::Esc {
                self.importing = false;
                self.import_input = String::new();
                return ThemeEditorAction::Nothing;
            }
            edit_input(&mut self.import_input, c);
            return ThemeEditorAction::Nothing;
        }
        if self.editing {
            if c == KeyCode::Enter {
                let idx = self.selected_field;
                config.theme.set_field_by_index(idx, self.input_buffer.clone());
                config.custom_theme.set_field_by_index(idx, self.input_buffer.clone());
                self.editing = false;
                return ThemeEditorAction::Save;
            } else if c == KeyCode::Esc {
                self.editing = false;
                return ThemeEditorAction::Nothing;
            }
            edit_input(&mut self.input_buffer, c);
            return ThemeEditorAction::Nothing;
        }
        if self.focus == ThemeEditorFocus::Presets {
            let fixed = Theme::preset_names().len();
            if c == KeyCode::Esc {
                return ThemeEditorAction::Leave;
            } else if c == KeyCode::Left || c == KeyCode::Char('h') {
                if self.selected_preset > 0 {
                    self.selected_preset = self.selected_preset - 1;
                }
            } else if c == KeyCode::Right || c == KeyCode::Char('l') {
                let total = fixed + config.user_themes.len();
                if self.selected_preset < total - 1 {
                    self.selected_preset = self.selected_preset + 1;
                }
            } else if c == KeyCode::Enter {
                let idx = self.selected_preset;
                let name = preset_name(config, idx);
                config.apply_preset(idx);
                config.active_preset = idx;
                return ThemeEditorAction::Applied(name);
            } else if c == KeyCode::Char('e') {
                self.exporting = true;
                self.export_input = String::new();
            } else if c == KeyCode::Char('i') {
                self.importing = true;
                self.import_input = String::new();
            } else if c == KeyCode::Down || c == KeyCode::Char('j') || c == KeyCode::Tab {
                self.focus = ThemeEditorFocus::Fields;
            }
            return ThemeEditorAction::Nothing;
        }
        let sf = self.selected_field;
        if c == KeyCode::Esc {
            return ThemeEditorAction::Leave;
        } else if (c == KeyCode::Tab && sf == 0) || c == KeyCode::Up || c == KeyCode::Char('k') {
            if sf > 0 && c != KeyCode::Tab {
                self.selected_field = sf - 1;
            } else {
                self.focus = ThemeEditorFocus::Presets;
            }
        } else if c == KeyCode::Down || c == KeyCode::Char('j') {
            if sf < 11 && sf + 1 < 11 {
                self.selected_field = sf + 1;
            }
        } else if c == KeyCode::Char('e') {
            self.exporting = true;
            self.export_input = String::new();
        } else if c == KeyCode::Char('i') {
            self.importing = true;
            self.import_input = String::new();
        } else if c == KeyCode::Enter {
            let mut r = ThemeEditorAction::Nothing;
            if self.selected_preset != CUSTOM_PRESET {
                config.switch_to_custom_copying_current();
                self.selected_preset = CUSTOM_PRESET;
                r = ThemeEditorAction::SwitchedToCustom;
            }
            self.input_buffer = config.theme.get_field_by_index(sf);
            self.editing = true;
            return r;
        }
        ThemeEditorAction::Nothing
    }
}

/// The name shown for preset `idx`.
fn preset_name(config: &Config, idx: usize) -> (r: String)
    ensures
        r@ == preset_label(*config, idx as int),
{
    let names = Theme::preset_names();
    if idx < names.len() {
        let s = String::from_str(names[idx]);
        assert(s@ == names@[idx as int]@);
        s
    } else if idx - names.len() < config.user_themes.len() {
        config.user_themes[idx - names.len()].0.clone()
    } else {
        String::new()
    }
}

} // verus!
