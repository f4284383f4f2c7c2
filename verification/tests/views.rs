use mimic::config::settings::VaultConfig;
use mimic::config::theme::Color;
use mimic::config::{sort_themes, theme_name_of, theme_names, Theme};
use mimic::editor::needs_trailing_newline;
use mimic::extensions::manifest::{Language, Manifest};
use mimic::extensions::ExtensionEntry;
use mimic::modes::{AppMode, SettingsTab, ViewMode};
use mimic::text::join_with;
use mimic::ui::editor_view::{follow_cursor, gutter_digits, row_spans, EditorColors};
use mimic::ui::extension_list::{extension_detail, extension_items, permissions_text};
use mimic::ui::file_browser::{listed_dirs, str_le, FileBrowserPurpose, FileBrowserState};
use mimic::ui::home::{home_input, home_items, HomeInput, HomeState};
use mimic::ui::images::{image_slot, is_web};
use mimic::ui::markdown::PreviewCopyTarget;
use mimic::ui::new_vault_dialog::NewVaultDialog;
use mimic::ui::preview::{copy_hits, hit_at};
use mimic::ui::settings::{settings_tabs, WarningDialog};
use mimic::ui::sidebar::Sidebar;
use mimic::ui::status::{hints, hints_row, status_parts, status_text};
use mimic::ui::styled::Span;
use mimic::ui::theme_editor::{ThemeEditorFocus, ThemeEditorState};
use mimic::ui::wrap::WrappedLine;
use mimic::vault::tree::{FileTree, WalkEntry};

fn texts(l: &[Span]) -> Vec<String> {
    l.iter().map(|s| s.text.clone()).collect()
}

fn all_texts(ls: &[Vec<Span>]) -> Vec<Vec<String>> {
    ls.iter().map(|l| texts(l)).collect()
}

fn strs(v: &[&str]) -> Vec<String> {
    v.iter().map(|s| s.to_string()).collect()
}

#[test]
fn status_bar_texts() {
    assert_eq!(
        status_text(AppMode::Normal, ViewMode::Split, "", "a.md", Some("/home/u/notas"), true),
        " NORMAL | SPLIT | a.md | vault: notas ●"
    );
    assert_eq!(status_text(AppMode::Insert, ViewMode::Editor, "x", "", None, false), " INSERT | EDITOR |  | vault: —");
    assert_eq!(status_text(AppMode::Command, ViewMode::Editor, "new idea", "a.md", None, true), ":new idea");
    let (l, r) = status_parts("abc", Some("hola"), 12);
    assert_eq!(r, "  hola");
    assert_eq!(l, "abc   ");
    let (l2, r2) = status_parts("abc", None, 5);
    assert_eq!((l2.as_str(), r2.as_str()), ("abc  ", ""));
    // the message is measured in bytes
    let (l3, _) = status_parts("x", Some("ñ"), 6);
    assert_eq!(l3, "x ");
    let (l4, _) = status_parts("abcdef", Some("m"), 4);
    assert_eq!(l4, "abcdef");
}

#[test]
fn hint_rows() {
    assert_eq!(hints(AppMode::Insert), vec![("Esc", "normal"), ("^S", "guardar")]);
    assert!(hints(AppMode::Home).is_empty());
    assert_eq!(hints(AppMode::Normal).len(), 11);
    let t = Theme::default_theme();
    let row = hints_row(AppMode::Insert, &t, 40);
    assert_eq!(texts(&row), strs(&[" ", "Esc", " normal", "  ", "^S", " guardar", &" ".repeat(40 - 25)]));
    assert!(row[1].style.mods.bold);
    assert_eq!(row[1].style.bg, Some(Theme::parse_color(&t.border)));
    let narrow = hints_row(AppMode::Insert, &t, 3);
    assert_eq!(narrow.last().unwrap().text, "");
    let home = hints_row(AppMode::Home, &t, 4);
    assert_eq!(texts(&home), strs(&[" ", "   "]));
}

#[test]
fn editor_gutter_and_scroll() {
    assert_eq!(gutter_digits(0), 2);
    assert_eq!(gutter_digits(9), 2);
    assert_eq!(gutter_digits(100), 3);
    assert_eq!(gutter_digits(12345), 5);
    assert_eq!(follow_cursor(10, 4, 20), 4);
    assert_eq!(follow_cursor(10, 15, 20), 10);
    assert_eq!(follow_cursor(10, 30, 20), 11);
    assert_eq!(follow_cursor(10, 3, 0), 10);
}

fn colors() -> EditorColors {
    EditorColors { fg: Color::Rgb(1, 1, 1), bg: Color::Rgb(2, 2, 2), gutter: Color::Rgb(3, 3, 3), selection: Color::Rgb(4, 4, 4) }
}

#[test]
fn editor_rows() {
    let first = WrappedLine { logical_row: 8, is_first_segment: true, text: "hola mundo".to_string(), highlight: Some((2, 6)) };
    let r = row_spans(&first, 3, colors());
    assert_eq!(texts(&r), strs(&["  9 ", "ho", "la m", "undo"]));
    assert_eq!(r[2].style.fg, Some(Color::Rgb(2, 2, 2)));
    assert_eq!(r[2].style.bg, Some(Color::Rgb(4, 4, 4)));
    assert_eq!(r[0].style.fg, Some(Color::Rgb(3, 3, 3)));
    let rest = WrappedLine { logical_row: 8, is_first_segment: false, text: "x".to_string(), highlight: None };
    assert_eq!(texts(&row_spans(&rest, 2, colors())), strs(&["   ", "x"]));
    let whole = WrappedLine { logical_row: 120, is_first_segment: true, text: "ab".to_string(), highlight: Some((0, 2)) };
    assert_eq!(texts(&row_spans(&whole, 2, colors())), strs(&["121 ", "ab"]));
}

fn target(row: usize, xs: u16, xe: u16, t: &str) -> PreviewCopyTarget {
    PreviewCopyTarget { row, x_start: xs, x_end: xe, text: t.to_string() }
}

#[test]
fn copy_buttons_on_screen() {
    let ts = vec![target(2, 10, 16, "a"), target(5, 10, 16, "b"), target(30, 10, 16, "c")];
    let hits = copy_hits(&ts, 3, 4, 7, 20);
    let v: Vec<(u16, u16, u16, String)> = hits.iter().map(|h| (h.x_start, h.x_end, h.y, h.text.clone())).collect();
    assert_eq!(v, vec![(14, 20, 9, "b".to_string())]);
    assert_eq!(hit_at(&hits, 14, 9), Some(0));
    assert_eq!(hit_at(&hits, 19, 9), Some(0));
    assert_eq!(hit_at(&hits, 20, 9), None);
    assert_eq!(hit_at(&hits, 15, 8), None);
    let all = copy_hits(&ts, 0, 0, 0, 100);
    assert_eq!(all.len(), 3);
}

#[test]
fn home_screen_rows() {
    let t = Theme::default_theme();
    let rows = home_items(&strs(&["/a", "/b"]), 1, &t);
    assert_eq!(all_texts(&rows), vec![strs(&["  /a"]), strs(&["▸ /b"])]);
    assert!(rows[1][0].style.mods.bold);
    let empty = home_items(&Vec::new(), 0, &t);
    assert_eq!(all_texts(&empty), vec![strs(&["  Sin vaults guardadas. Presiona 'n' para crear una."])]);
    let mut st = HomeState::default();
    assert!(home_input(&st).is_none());
    st.input_mode = HomeInput::OpenPath;
    st.input_buffer = "/x".to_string();
    assert_eq!(home_input(&st), Some((" Abrir vault — ruta: ", "/x_".to_string())));
}

#[test]
fn browser_rows_and_help() {
    let t = Theme::default_theme();
    let mut b = FileBrowserState::at(FileBrowserPurpose::OpenVault, "/h".to_string(), strs(&["/h/a", "/h/b"]));
    b.selected = 1;
    assert_eq!(all_texts(&b.items(&t)), vec![strs(&["  a/"]), strs(&["▸ b/"])]);
    assert_eq!(b.help(), "  j/k=mover  Enter=entrar  ←/h=subir  n=nueva carpeta  Espacio=abrir vault aquí  Esc=cancelar");
    b.start_create_folder();
    assert_eq!(b.help(), "  Enter=crear  Esc=cancelar");
    let e = FileBrowserState::at(FileBrowserPurpose::SetDefaultDir, "/".to_string(), Vec::new());
    assert_eq!(all_texts(&e.items(&t)), vec![strs(&["  (directorio vacío)"])]);
    assert!(e.help().contains("Espacio=usar como default"));
}

#[test]
fn directory_listing_order() {
    let dirs = strs(&["/h/zeta", "/h/.git", "/h/Alfa", "/h/beta", "/h/alfa", "/h/ñu"]);
    assert_eq!(listed_dirs(&dirs), strs(&["/h/Alfa", "/h/alfa", "/h/beta", "/h/zeta", "/h/ñu"]));
    assert!(listed_dirs(&Vec::new()).is_empty());
    assert!(str_le("abc", "abd"));
    assert!(str_le("ab", "abc"));
    assert!(!str_le("b", "abc"));
    assert!(str_le("x", "x"));
}

fn manifest(name: &str, enabled: bool, perms: &[&str]) -> Manifest {
    Manifest {
        name: name.to_string(),
        version: "1.2".to_string(),
        author: "ana".to_string(),
        description: "cuenta".to_string(),
        language: Language::Rhai,
        enabled,
        permissions: strs(perms),
    }
}

#[test]
fn extension_rows() {
    let t = Theme::default_theme();
    let exts: Vec<ExtensionEntry<()>> = vec![
        ExtensionEntry::new(manifest("wc", true, &["commands"]), "/e/wc".to_string(), None),
        ExtensionEntry::new(manifest("sh", false, &["process.run"]), "/e/sh".to_string(), None),
    ];
    let rows = extension_items(&exts, 1, &t);
    assert_eq!(
        all_texts(&rows),
        vec![strs(&["  ", "● ", "wc v1.2", "", "  — ana"]), strs(&["▸ ", "○ ", "sh v1.2", " ⚠", "  — ana"])]
    );
    assert_eq!(rows[1][3].style.fg, Some(Color::Yellow));
    let none: Vec<ExtensionEntry<()>> = Vec::new();
    assert_eq!(all_texts(&extension_items(&none, 0, &t)), vec![strs(&["  Sin extensiones instaladas."])]);
    let d = extension_detail(&manifest("wc", false, &["a", "b"]), &t);
    assert_eq!(
        all_texts(&d),
        vec![
            strs(&["Descripción: ", "cuenta"]),
            strs(&["Lenguaje: ", "Rhai", "   Estado: ", "INACTIVA"]),
            strs(&["Permisos: ", "a, b"]),
            strs(&[" Space/Enter=activar/desactivar   Del=desinstalar"]),
        ]
    );
    assert_eq!(permissions_text(&Vec::new()), "ninguno");
    assert_eq!(join_with(&strs(&["x", "y", "z"]), "-"), "x-y-z");
    assert_eq!(join_with(&Vec::new(), "-"), "");
}

#[test]
fn warning_dialog_lines() {
    let t = Theme::default_theme();
    let d = WarningDialog::for_install(&manifest("sh", false, &["process.run"]));
    let ls = all_texts(&d.lines(&t));
    assert_eq!(ls.len(), 14);
    assert_eq!(ls[0], strs(&["  ⚠  EXTENSIÓN DE TERCEROS — INSTALAR  "]));
    assert_eq!(ls[2], strs(&["  Extensión: ", "\"sh\" v1.2 por ana"]));
    assert_eq!(ls[3], strs(&["  Permisos:  ", "process.run"]));
    assert_eq!(ls[5], strs(&["  ⚠ Esta extensión tiene permisos peligrosos (fs.write / process.run)."]));
    assert_eq!(ls[13], strs(&["  ", " Y  Confirmar ", "    ", " N / Esc  Cancelar "]));
    let safe = WarningDialog::for_enable(&manifest("wc", false, &[]), 0);
    let ls2 = all_texts(&safe.lines(&t));
    assert_eq!(ls2.len(), 12);
    assert_eq!(ls2[0], strs(&["  ⚠  EXTENSIÓN DE TERCEROS — ACTIVAR  "]));
    assert_eq!(ls2[3], strs(&["  Permisos:  ", "ninguno"]));
    let tabs = settings_tabs(SettingsTab::Themes, &t);
    assert_eq!(texts(&tabs), strs(&[" Extensiones [BETA] ", "  ", " Temas ", "  Tab=cambiar   Esc=cerrar"]));
    assert!(tabs[2].style.mods.bold && !tabs[0].style.mods.bold);
}

#[test]
fn theme_editor_views() {
    let t = Theme::default_theme();
    let mut st = ThemeEditorState::default();
    st.selected_preset = 1;
    let users = vec![("mio".to_string(), Theme::matrix())];
    assert_eq!(
        texts(&st.preset_spans(&t, &users)),
        strs(&[" ", " Default ", "  ", " Matrix ", "  ", " SDRX ", "  ", " Custom ", "  ", " mio ", "  "])
    );
    assert_eq!(st.preset_hint(), " ←/→ elegir  Enter=aplicar  ↓=colores");
    assert_eq!(st.colors_label(&t).text, " Colores — Enter auto-cambia a Custom");
    let rows = st.field_rows(&t);
    assert_eq!(rows.len(), 11);
    assert_eq!(texts(&rows[0]), strs(&["  bg          ", " #1e1e2e  ", "██"]));
    assert_eq!(rows[0][2].style.fg, Some(Color::Rgb(0x1e, 0x1e, 0x2e)));
    st.focus = ThemeEditorFocus::Fields;
    st.selected_field = 8;
    st.editing = true;
    st.input_buffer = "#1".to_string();
    let rows = st.field_rows(&t);
    assert_eq!(texts(&rows[8]), strs(&["  tab_inactive", "      #1  ", "██"]));
    assert!(rows[8][0].style.mods.bold);
    assert_eq!(texts(&st.bottom_row(&t)), strs(&[" Enter=confirmar  Esc=cancelar"]));
    st.editing = false;
    st.exporting = true;
    st.export_input = "x".to_string();
    assert_eq!(texts(&st.bottom_row(&t)), strs(&[" Exportar como: ", "x", "█", "  Esc=cancelar"]));
    st.exporting = false;
    assert_eq!(
        texts(&st.bottom_row(&t)),
        strs(&[" ↑/↓ campo  Enter=editar  e=exportar  i=importar  Tab=presets  Esc=cerrar"])
    );
}

#[test]
fn new_vault_dialog_views() {
    let t = Theme::default_theme();
    let mut d = NewVaultDialog::default();
    assert_eq!(d.name_text(), "_");
    d.name = "notas".to_string();
    assert_eq!(d.name_text(), "notas▌");
    assert_eq!(d.path_label(&t).text, " Se creará en ");
    d.override_path = Some("/x".to_string());
    assert_eq!(d.path_label(&t).text, " Ruta (personalizada) ");
    assert_eq!(d.path_label(&t).style.fg, Some(Theme::parse_color(&t.link)));
}

#[test]
fn image_boxes_in_view() {
    assert_eq!(image_slot(10, 4, 20, 18, 28, 10, 14), Some((4, 7, 6, 7)));
    assert_eq!(image_slot(3, 4, 20, 18, 28, 10, 14), None);
    assert_eq!(image_slot(30, 4, 20, 18, 28, 10, 14), None);
    assert_eq!(image_slot(4, 4, 50, 10, 10, 20, 20), Some((0, 0, 0, 20)));
    assert!(is_web("https://x.org/a.png"));
    assert!(is_web("http://x"));
    assert!(!is_web("img/a.png"));
    assert!(!is_web("ftp://x"));
}

#[test]
fn exported_theme_files() {
    assert_eq!(theme_name_of("/t/mio.toml"), Some("mio".to_string()));
    assert_eq!(theme_name_of("/t/mio.json"), None);
    assert_eq!(theme_names(&strs(&["/t/b.toml", "/t/x.txt", "/t/a.toml"])), strs(&["b", "a"]));
    let sorted = sort_themes(vec![
        ("zeta".to_string(), Theme::sdrx()),
        ("alfa".to_string(), Theme::matrix()),
        ("beta".to_string(), Theme::default_theme()),
        ("alfa".to_string(), Theme::sdrx()),
    ]);
    let names: Vec<&str> = sorted.iter().map(|(n, _)| n.as_str()).collect();
    assert_eq!(names, vec!["alfa", "alfa", "beta", "zeta"]);
    assert_eq!(sorted[0].1.fg, Theme::matrix().fg);
    assert_eq!(sorted[1].1.fg, Theme::sdrx().fg);
}

#[test]
fn trailing_newline_rule() {
    assert!(needs_trailing_newline(&strs(&["a", "b"])));
    assert!(!needs_trailing_newline(&strs(&["a", ""])));
    assert!(!needs_trailing_newline(&Vec::new()));
}

fn w(path: &str, depth: usize, is_dir: bool) -> WalkEntry {
    let name = path.rsplit('/').next().unwrap().to_string();
    WalkEntry { path: path.to_string(), name, depth, is_dir }
}

#[test]
fn sidebar_row_styles() {
    let tree = FileTree::load("/v", vec![w("/v", 0, true), w("/v/a.md", 1, false), w("/v/d", 1, true)]);
    let t = Theme::default_theme();
    let sb = Sidebar { tree: &tree, theme: &t, scroll_offset: 0 };
    let sel = sb.row_style(0);
    assert!(sel.mods.bold);
    assert_eq!(sel.fg, Some(Theme::parse_color(&t.accent)));
    assert_eq!(sb.row_style(1).fg, Some(Theme::parse_color(&t.fg)));
    assert_eq!(sb.row_style(1).bg, Some(Theme::parse_color(&t.sidebar_bg)));
    let _ = VaultConfig::default();
}
