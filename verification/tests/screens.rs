use mimic::config::settings::VaultConfig;
use mimic::config::theme::Color;
use mimic::config::{Config, Theme};
use mimic::extensions::hooks::{HookEvent, HookResult};
use mimic::extensions::manifest::{Language, Manifest};
use mimic::extensions::{ExtRuntime, ExtensionEntry, ExtensionManager};
use mimic::keys::{Key, KeyCode, Modifiers};
use mimic::modes::SettingsTab;
use mimic::ui::file_browser::{browser_key, folder_key, BrowserAction, BrowserExit, FileBrowserPurpose, FileBrowserState};
use mimic::ui::home::{home_key, HomeAction, HomeBrowse, HomeInput, HomeState};
use mimic::ui::new_vault_dialog::{dialog_key, DialogAction, NewVaultDialog};
use mimic::ui::settings::{settings_key, warning_key, SettingsAction, WarningDialog, WarningOutcome};
use mimic::ui::sidebar::Sidebar;
use mimic::ui::styled::{pad_center, push_repeat, push_str, repeated, Style};
use mimic::ui::tabs::{byte_len, TabBar, TabRect};
use mimic::ui::theme_editor::{ThemeEditorAction, ThemeEditorFocus, ThemeEditorState};
use mimic::vault::tree::{FileTree, WalkEntry};

fn k(code: KeyCode) -> Key {
    Key { code, mods: Modifiers { ctrl: false, shift: false, alt: false, other: false } }
}

fn c(ch: char) -> Key {
    k(KeyCode::Char(ch))
}

fn colors(t: &Theme) -> Vec<String> {
    t.fields().into_iter().map(|(_, v)| v).collect()
}

#[test]
fn theme_editor_applies_presets() {
    let mut st = ThemeEditorState::default();
    let mut cfg = Config::default();
    assert!(matches!(st.handle_key(&mut cfg, k(KeyCode::Left)), ThemeEditorAction::Nothing));
    assert_eq!(st.selected_preset, 0);
    st.handle_key(&mut cfg, c('l'));
    st.handle_key(&mut cfg, k(KeyCode::Right));
    assert_eq!(st.selected_preset, 2);
    match st.handle_key(&mut cfg, k(KeyCode::Enter)) {
        ThemeEditorAction::Applied(n) => assert_eq!(n, "SDRX"),
        _ => panic!("expected a preset"),
    }
    assert_eq!(cfg.active_preset, 2);
    assert_eq!(colors(&cfg.theme), colors(&Theme::sdrx()));
    st.handle_key(&mut cfg, k(KeyCode::Right));
    st.handle_key(&mut cfg, k(KeyCode::Right));
    assert_eq!(st.selected_preset, 3);
    cfg.user_themes.push(("mio".to_string(), Theme::matrix()));
    st.handle_key(&mut cfg, k(KeyCode::Right));
    assert_eq!(st.selected_preset, 4);
    match st.handle_key(&mut cfg, k(KeyCode::Enter)) {
        ThemeEditorAction::Applied(n) => assert_eq!(n, "mio"),
        _ => panic!("expected a preset"),
    }
    assert_eq!(colors(&cfg.theme), colors(&Theme::matrix()));
    assert!(matches!(st.handle_key(&mut cfg, k(KeyCode::Esc)), ThemeEditorAction::Leave));
}

#[test]
fn theme_editor_edits_custom_colors() {
    let mut st = ThemeEditorState::default();
    let mut cfg = Config::default();
    cfg.apply_preset(1);
    st.selected_preset = 1;
    st.handle_key(&mut cfg, k(KeyCode::Down));
    assert_eq!(st.focus, ThemeEditorFocus::Fields);
    st.handle_key(&mut cfg, c('j'));
    assert_eq!(st.selected_field, 1);
    assert!(matches!(st.handle_key(&mut cfg, k(KeyCode::Enter)), ThemeEditorAction::SwitchedToCustom));
    assert!(st.editing);
    assert_eq!(st.input_buffer, "#00ff41");
    assert_eq!(st.selected_preset, 3);
    assert_eq!(cfg.active_preset, 3);
    assert_eq!(colors(&cfg.custom_theme), colors(&Theme::matrix()));
    for _ in 0..6 {
        st.handle_key(&mut cfg, k(KeyCode::Backspace));
    }
    for ch in "abcdef".chars() {
        st.handle_key(&mut cfg, c(ch));
    }
    assert_eq!(st.input_buffer, "#abcdef");
    assert!(matches!(st.handle_key(&mut cfg, k(KeyCode::Enter)), ThemeEditorAction::Save));
    assert!(!st.editing);
    assert_eq!(cfg.theme.fg, "#abcdef");
    assert_eq!(cfg.custom_theme.fg, "#abcdef");
    // editing again while Custom is selected does not switch
    assert!(matches!(st.handle_key(&mut cfg, k(KeyCode::Enter)), ThemeEditorAction::Nothing));
    assert!(matches!(st.handle_key(&mut cfg, k(KeyCode::Esc)), ThemeEditorAction::Nothing));
    assert!(!st.editing);
    assert_eq!(cfg.theme.fg, "#abcdef");
    st.handle_key(&mut cfg, c('k'));
    assert_eq!(st.selected_field, 0);
    st.handle_key(&mut cfg, c('k'));
    assert_eq!(st.focus, ThemeEditorFocus::Presets);
}

#[test]
fn theme_editor_names_exports_and_imports() {
    let mut st = ThemeEditorState::default();
    let mut cfg = Config::default();
    st.handle_key(&mut cfg, c('e'));
    assert!(st.exporting);
    for ch in " mio ".chars() {
        st.handle_key(&mut cfg, c(ch));
    }
    match st.handle_key(&mut cfg, k(KeyCode::Enter)) {
        ThemeEditorAction::Export(n) => assert_eq!(n, "mio"),
        _ => panic!("expected an export"),
    }
    assert!(!st.exporting);
    assert_eq!(st.export_input, "");
    st.handle_key(&mut cfg, c('i'));
    assert!(st.importing);
    assert!(matches!(st.handle_key(&mut cfg, k(KeyCode::Enter)), ThemeEditorAction::Nothing));
    st.handle_key(&mut cfg, c('i'));
    st.handle_key(&mut cfg, c('x'));
    assert!(matches!(st.handle_key(&mut cfg, k(KeyCode::Esc)), ThemeEditorAction::Nothing));
    assert!(!st.importing);
    assert_eq!(st.import_input, "");
    st.handle_key(&mut cfg, c('i'));
    st.handle_key(&mut cfg, c('t'));
    match st.handle_key(&mut cfg, k(KeyCode::Enter)) {
        ThemeEditorAction::Import(n) => assert_eq!(n, "t"),
        _ => panic!("expected an import"),
    }
}

fn manifest(name: &str, enabled: bool, perms: &[&str]) -> Manifest {
    Manifest {
        name: name.to_string(),
        version: "0.2".to_string(),
        author: "ana".to_string(),
        description: String::new(),
        language: Language::Rhai,
        enabled,
        permissions: perms.iter().map(|p| p.to_string()).collect(),
    }
}

struct Quiet;

impl ExtRuntime for Quiet {
    fn call_hook(&mut self, _event: &HookEvent) -> HookResult {
        HookResult::Empty
    }

    fn dispatch_command(&mut self, _name: &str, _args: &[String]) -> Option<String> {
        None
    }

    fn drain_notifications(&mut self) -> Vec<String> {
        Vec::new()
    }
}

fn entries() -> Vec<ExtensionEntry<Quiet>> {
    vec![
        ExtensionEntry::new(manifest("a", true, &["commands"]), "/e/a".to_string(), Some(Quiet)),
        ExtensionEntry::new(manifest("b", false, &["fs.write"]), "/e/b".to_string(), None),
    ]
}

#[test]
fn settings_tabs_and_list() {
    let exts = entries();
    let mut tab = SettingsTab::Extensions;
    let mut sel = 0usize;
    assert!(matches!(settings_key(&mut tab, &mut sel, &exts, c('k')), SettingsAction::Nothing));
    assert_eq!(sel, 0);
    settings_key(&mut tab, &mut sel, &exts, c('j'));
    settings_key(&mut tab, &mut sel, &exts, c('j'));
    assert_eq!(sel, 1);
    match settings_key(&mut tab, &mut sel, &exts, k(KeyCode::Enter)) {
        SettingsAction::Confirm(d) => {
            assert_eq!(d.ext_name, "b");
            assert_eq!(d.ext_version, "0.2");
            assert_eq!(d.ext_author, "ana");
            assert_eq!(d.permissions, vec!["fs.write"]);
            assert!(d.is_enable);
            assert_eq!(d.ext_idx, Some(1));
        },
        _ => panic!("expected a confirmation"),
    }
    sel = 0;
    assert!(matches!(settings_key(&mut tab, &mut sel, &exts, c(' ')), SettingsAction::Disable(0)));
    match settings_key(&mut tab, &mut sel, &exts, k(KeyCode::Delete)) {
        SettingsAction::Remove(n) => assert_eq!(n, "a"),
        _ => panic!("expected a removal"),
    }
    sel = 5;
    assert!(matches!(settings_key(&mut tab, &mut sel, &exts, k(KeyCode::Enter)), SettingsAction::Nothing));
    assert!(matches!(settings_key(&mut tab, &mut sel, &exts, c('2')), SettingsAction::Nothing));
    assert_eq!(tab, SettingsTab::Themes);
    assert!(matches!(settings_key(&mut tab, &mut sel, &exts, c('j')), SettingsAction::ThemeKey));
    assert!(matches!(settings_key(&mut tab, &mut sel, &exts, k(KeyCode::Tab)), SettingsAction::Nothing));
    assert_eq!(tab, SettingsTab::Extensions);
    assert!(matches!(settings_key(&mut tab, &mut sel, &exts, k(KeyCode::Esc)), SettingsAction::Leave));
}

#[test]
fn only_yes_confirms_an_extension() {
    let mut m: ExtensionManager<Quiet> = ExtensionManager::with_dir("/e".to_string(), None);
    m.extensions = entries();
    let mut dialog = Some(WarningDialog::for_enable(&m.extensions[1].manifest, 1));
    for key in [c('x'), k(KeyCode::Enter)] {
        assert!(matches!(warning_key(&mut dialog, &mut m, key), WarningOutcome::Nothing));
        assert!(dialog.is_some());
        assert!(!m.extensions[1].manifest.enabled);
    }
    match warning_key(&mut dialog, &mut m, c('n')) {
        WarningOutcome::Cancelled(n) => assert_eq!(n, "b"),
        _ => panic!("expected a cancellation"),
    }
    assert!(dialog.is_none());
    assert!(!m.extensions[1].manifest.enabled);
    dialog = Some(WarningDialog::for_enable(&m.extensions[1].manifest, 1));
    match warning_key(&mut dialog, &mut m, c('Y')) {
        WarningOutcome::Confirmed(Some(n)) => assert_eq!(n, "b"),
        _ => panic!("expected a confirmation"),
    }
    assert!(m.extensions[1].manifest.enabled);
    assert!(m.extensions[0].manifest.enabled);
    let mut install = Some(WarningDialog::for_install(&manifest("c", false, &[])));
    assert!(matches!(warning_key(&mut install, &mut m, c('y')), WarningOutcome::Confirmed(None)));
    let mut none: Option<WarningDialog> = None;
    assert!(matches!(warning_key(&mut none, &mut m, c('y')), WarningOutcome::Nothing));
    let mut stale = Some(WarningDialog::for_enable(&manifest("z", false, &[]), 9));
    assert!(matches!(warning_key(&mut stale, &mut m, c('y')), WarningOutcome::Confirmed(None)));
}

fn vaults(v: &[&str]) -> VaultConfig {
    let mut c = VaultConfig::default();
    c.recent = v.iter().map(|s| s.to_string()).collect();
    c
}

#[test]
fn home_screen_keys() {
    let mut st = HomeState::default();
    assert_eq!(st.input_mode, HomeInput::Idle);
    let mut vs = vaults(&["/a", "/b", "/c"]);
    assert!(matches!(home_key(&mut st, &mut vs, c('q')), HomeAction::Quit));
    assert!(matches!(home_key(&mut st, &mut vs, c('n')), HomeAction::NewVault));
    assert!(matches!(home_key(&mut st, &mut vs, c('o')), HomeAction::Browse(HomeBrowse::OpenVault)));
    assert!(matches!(home_key(&mut st, &mut vs, c('s')), HomeAction::Browse(HomeBrowse::SetDefaultDir)));
    home_key(&mut st, &mut vs, c('j'));
    home_key(&mut st, &mut vs, k(KeyCode::Down));
    home_key(&mut st, &mut vs, c('j'));
    assert_eq!(st.selected, 2);
    match home_key(&mut st, &mut vs, k(KeyCode::Enter)) {
        HomeAction::Open(p) => assert_eq!(p, "/c"),
        _ => panic!("expected an open"),
    }
    assert!(matches!(home_key(&mut st, &mut vs, c('d')), HomeAction::Save));
    assert_eq!(vs.recent, vec!["/a", "/b"]);
    assert_eq!(st.selected, 1);
    home_key(&mut st, &mut vs, c('k'));
    home_key(&mut st, &mut vs, c('k'));
    assert_eq!(st.selected, 0);
    let mut empty = vaults(&[]);
    let mut st2 = HomeState::default();
    assert!(matches!(home_key(&mut st2, &mut empty, k(KeyCode::Enter)), HomeAction::Nothing));
    assert!(matches!(home_key(&mut st2, &mut empty, c('d')), HomeAction::Save));
    assert_eq!(st2.selected, 0);
}

#[test]
fn new_vault_dialog_keys() {
    let mut d = NewVaultDialog::default();
    for ch in "mi/va:ult".chars() {
        assert!(matches!(dialog_key(&mut d, "/vaults", c(ch)), DialogAction::Nothing));
    }
    assert_eq!(d.name, "mivault");
    dialog_key(&mut d, "/vaults", k(KeyCode::Backspace));
    assert_eq!(d.name, "mivaul");
    match dialog_key(&mut d, "/vaults", k(KeyCode::Enter)) {
        DialogAction::Create(p) => assert_eq!(p, "/vaults/mivaul"),
        _ => panic!("expected a create"),
    }
    d.override_path = Some("/otra/".to_string());
    assert_eq!(d.resolved_path("/vaults"), "/otra/mivaul");
    assert!(matches!(dialog_key(&mut d, "/vaults", k(KeyCode::Tab)), DialogAction::ChooseDirectory));
    assert!(matches!(dialog_key(&mut d, "/vaults", k(KeyCode::Esc)), DialogAction::Close));
    let mut blank = NewVaultDialog { name: "   ".to_string(), override_path: None };
    assert!(matches!(dialog_key(&mut blank, "/vaults", k(KeyCode::Enter)), DialogAction::Nothing));
    assert!(matches!(dialog_key(&mut blank, "/vaults", k(KeyCode::Up)), DialogAction::Nothing));
    assert_eq!(blank.name, "   ");
}

#[test]
fn file_browser_keys() {
    let mut b = FileBrowserState::at(
        FileBrowserPurpose::OpenVault,
        "/home/u".to_string(),
        vec!["/home/u/docs".to_string(), "/home/u/notas".to_string()],
    );
    assert_eq!(b.title(), " Abrir Vault existente ");
    assert!(matches!(browser_key(&mut b, c('k')), BrowserAction::Nothing));
    assert!(matches!(browser_key(&mut b, c('j')), BrowserAction::Nothing));
    browser_key(&mut b, k(KeyCode::Down));
    assert_eq!(b.selected, 1);
    assert!(matches!(browser_key(&mut b, k(KeyCode::Enter)), BrowserAction::Reload));
    assert_eq!(b.current_path, "/home/u/notas");
    b.set_entries(Vec::new());
    assert!(matches!(browser_key(&mut b, k(KeyCode::Enter)), BrowserAction::Nothing));
    match browser_key(&mut b, c(' ')) {
        BrowserAction::Choose(p, purpose) => {
            assert_eq!(p, "/home/u/notas");
            assert_eq!(purpose, FileBrowserPurpose::OpenVault);
        },
        _ => panic!("expected a choice"),
    }
    assert!(matches!(browser_key(&mut b, k(KeyCode::Backspace)), BrowserAction::Reload));
    assert_eq!(b.current_path, "/home/u");
    b.current_path = "/".to_string();
    assert!(matches!(browser_key(&mut b, c('h')), BrowserAction::Nothing));
    assert!(matches!(browser_key(&mut b, k(KeyCode::Esc)), BrowserAction::Close(BrowserExit::Home)));
    let mut o = FileBrowserState::at(FileBrowserPurpose::NewVaultOverridePath, "/".to_string(), Vec::new());
    assert!(matches!(browser_key(&mut o, k(KeyCode::Esc)), BrowserAction::Close(BrowserExit::NewVaultDialog)));
    assert!(!FileBrowserState::start_dir().is_empty());
}

#[test]
fn file_browser_new_folder_and_selection() {
    let mut b = FileBrowserState::at(
        FileBrowserPurpose::FirstTimeSetup,
        "/h".to_string(),
        vec!["/h/a".to_string(), "/h/b".to_string(), "/h/c".to_string()],
    );
    b.push_char('x');
    assert!(b.new_folder_input.is_none());
    b.start_create_folder();
    for ch in " nueva".chars() {
        b.push_char(ch);
    }
    b.push_char('!');
    b.pop_char();
    assert_eq!(b.new_folder_input.as_deref(), Some(" nueva"));
    assert_eq!(b.take_folder_name(), Some("nueva".to_string()));
    assert!(b.new_folder_input.is_none());
    b.start_create_folder();
    b.push_char(' ');
    assert_eq!(b.take_folder_name(), None);
    b.start_create_folder();
    b.cancel_create_folder();
    assert!(b.new_folder_input.is_none());
    b.select_path("/h/c");
    assert_eq!(b.selected, 2);
    b.select_path("/h/zz");
    assert_eq!(b.selected, 2);
    assert_eq!(b.selected_path(), "/h");
    assert!(b.go_up());
    assert_eq!(b.current_path, "/");
    assert!(!b.go_up());
}

#[test]
fn styled_text_helpers() {
    assert_eq!(pad_center("ab", 7, '─'), "──ab───");
    assert_eq!(pad_center("abcdef", 4, '─'), "abcd");
    assert_eq!(pad_center("", 3, '*'), "***");
    assert_eq!(repeated('x', 3), "xxx");
    assert_eq!(repeated('x', 0), "");
    let mut s = String::from("a");
    push_repeat(&mut s, '-', 2);
    push_str(&mut s, "ñb");
    assert_eq!(s, "a--ñb");
    assert_eq!(mimic::ui::styled::concat("ho", "la"), "hola");
    let st = Style::fg(Color::Rgb(1, 2, 3)).on(Color::Reset).bold().italic();
    assert_eq!(st.fg, Some(Color::Rgb(1, 2, 3)));
    assert_eq!(st.bg, Some(Color::Reset));
    assert!(st.mods.bold && st.mods.italic && !st.mods.dim);
    let p = Style::plain().dim().underlined().crossed_out();
    assert_eq!(p.fg, None);
    assert!(p.mods.dim && p.mods.underlined && p.mods.crossed_out && !p.mods.bold);
}

#[test]
fn tab_bar_geometry() {
    assert_eq!(byte_len("ñandú"), 7);
    assert_eq!(byte_len(""), 0);
    let t = Theme::default_theme();
    let bar = TabBar { tab_names: vec!["a.md", "ñ.md"], active: 1, dirty_flags: vec![true, false], theme: &t };
    let (rects, used) = bar.rects(0, 0).unwrap();
    // widths in screen columns: " ● a.md" is 7, " ✕ " is 3, "│" is 1
    assert_eq!(
        rects,
        vec![
            TabRect { x_start: 27, close_x_start: 34, close_x_end: 37, y: 0 },
            TabRect { x_start: 38, close_x_start: 45, close_x_end: 48, y: 0 },
        ]
    );
    assert_eq!(used, 49);
    let (r2, u2) = bar.rects(10, 3).unwrap();
    assert_eq!(r2[0].x_start, 37);
    assert_eq!(r2[1].y, 3);
    assert_eq!(u2, 49);
    let one = TabBar { tab_names: vec!["a"], active: 0, dirty_flags: vec![false], theme: &t };
    let (r1, _) = one.rects(0, 0).unwrap();
    assert_eq!(r1[0].close_x_start - r1[0].x_start, 4);
    assert_eq!(r1[0].close_x_end - r1[0].close_x_start, 3);
    assert!(bar.rects(65530, 0).is_none());
    let wide = TabBar { tab_names: vec!["日本"], active: 0, dirty_flags: vec![false], theme: &t };
    let (rw, _) = wide.rects(0, 0).unwrap();
    assert_eq!(rw[0].close_x_start, 27 + 3 + 4);
    let spans = bar.spans();
    let texts: Vec<&str> = spans.iter().map(|s| s.text.as_str()).collect();
    assert_eq!(texts, vec![" Mimic ", "///////////////////", " ", " ● a.md", " ✕ ", "│", "   ñ.md", " ✕ ", "│"]);
    let widths: usize = texts[..3].iter().map(|s| s.len()).sum();
    assert_eq!(widths, 27);
    assert!(spans[6].style.mods.bold);
    assert!(!spans[3].style.mods.bold);
}

fn w(path: &str, depth: usize, is_dir: bool) -> WalkEntry {
    let name = path.rsplit('/').next().unwrap().to_string();
    WalkEntry { path: path.to_string(), name, depth, is_dir }
}

#[test]
fn sidebar_rows() {
    let mut tree = FileTree::load(
        "/v",
        vec![w("/v", 0, true), w("/v/a.md", 1, false), w("/v/d", 1, true), w("/v/d/b.md", 2, false), w("/v/z.md", 1, false)],
    );
    tree.collapsed.push("/v/d".to_string());
    let t = Theme::default_theme();
    let sb = Sidebar { tree: &tree, theme: &t, scroll_offset: 1 };
    assert_eq!(sb.shown(10), vec![1, 3]);
    assert_eq!(sb.shown(1), vec![1]);
    let far = Sidebar { tree: &tree, theme: &t, scroll_offset: 7 };
    assert!(far.shown(5).is_empty());
    assert_eq!(sb.row_text(&tree.entries[1], 8), "▸ d     ");
    assert_eq!(sb.row_text(&tree.entries[2], 3), "    b.md");
    assert_eq!(sb.row_text(&tree.entries[0], 0), "  a.md");
    tree.collapsed.clear();
    let open = Sidebar { tree: &tree, theme: &t, scroll_offset: 0 };
    assert_eq!(open.row_text(&tree.entries[1], 0), "▾ d");
    assert_eq!(open.shown(10), vec![0, 1, 2, 3]);
}

#[test]
fn folder_name_keys() {
    let mut b = FileBrowserState::at(FileBrowserPurpose::OpenVault, "/h".to_string(), vec!["/h/a".to_string()]);
    b.start_create_folder();
    for ch in " doc".chars() {
        assert_eq!(folder_key(&mut b, c(ch)), None);
    }
    assert_eq!(folder_key(&mut b, c('s')), None);
    assert_eq!(folder_key(&mut b, c('!')), None);
    assert_eq!(folder_key(&mut b, k(KeyCode::Backspace)), None);
    assert_eq!(b.new_folder_input.as_deref(), Some(" docs"));
    assert_eq!(folder_key(&mut b, k(KeyCode::Tab)), None);
    assert_eq!(folder_key(&mut b, k(KeyCode::Enter)), Some("/h/docs".to_string()));
    assert!(b.new_folder_input.is_none());
    b.start_create_folder();
    assert_eq!(folder_key(&mut b, c(' ')), None);
    assert_eq!(folder_key(&mut b, k(KeyCode::Enter)), None);
    b.start_create_folder();
    assert_eq!(folder_key(&mut b, c('z')), None);
    assert_eq!(folder_key(&mut b, k(KeyCode::Esc)), None);
    assert!(b.new_folder_input.is_none());
    assert_eq!(b.selected, 0);
    assert_eq!(b.current_path, "/h");
}

#[test]
fn vault_under_a_dot_folder_lists_its_notes() {
    let walked = vec![
        w("/tmp/.v", 0, true),
        w("/tmp/.v/a.md", 1, false),
        w("/tmp/.v/.obsidian", 1, true),
        w("/tmp/.v/.obsidian/x.md", 2, false),
        w("/tmp/.v/sub", 1, true),
        w("/tmp/.v/sub/b.md", 2, false),
    ];
    let t = FileTree::load("/tmp/.v", walked);
    let names: Vec<&str> = t.entries.iter().map(|e| e.name.as_str()).collect();
    assert_eq!(names, vec!["a.md", "sub", "b.md"]);
    let rel = FileTree::load("./notes", vec![w("./notes", 0, true), w("./notes/a.md", 1, false)]);
    assert_eq!(rel.entries.len(), 1);
    assert_eq!(rel.entries[0].name, "a.md");
    assert_eq!(rel.entries[0].depth, 0);
}
