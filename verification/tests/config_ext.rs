use mimic::cli::{ext_brief, ext_line, quick_note, resolve_manager};
use mimic::config::settings::{VaultConfig, MAX_RECENT};
use mimic::config::theme::Color;
use mimic::config::{Config, Settings, Theme, CUSTOM_PRESET};
use mimic::extensions::hooks::{HookEvent, HookResult};
use mimic::extensions::manifest::{Language, Manifest};
use mimic::extensions::{ExtRuntime, ExtensionEntry, ExtensionManager};
use mimic::modes::ViewMode;
use mimic::paths::join_path;

fn colors(t: &Theme) -> Vec<String> {
    t.fields().into_iter().map(|(_, v)| v).collect()
}

#[test]
fn theme_presets() {
    assert_eq!(Theme::preset_names(), vec!["Default", "Matrix", "SDRX", "Custom"]);
    let p = Theme::presets();
    assert_eq!(p.len(), 4);
    assert_eq!(colors(&p[1].1), colors(&Theme::matrix()));
    assert_eq!(colors(&p[3].1), colors(&Theme::default_theme()));
    assert_eq!(Theme::default_theme().bg, "#1e1e2e");
    assert_eq!(Theme::matrix().fg, "#00ff41");
    assert_eq!(Theme::sdrx().tab_inactive, "#ff00ff");
    assert_eq!(colors(&Theme::default()), colors(&Theme::default_theme()));
}

#[test]
fn theme_fields_in_order() {
    let t = Theme::sdrx();
    let names: Vec<&str> = t.fields().iter().map(|(n, _)| *n).collect();
    assert_eq!(
        names,
        vec!["bg", "fg", "accent", "header", "link", "border", "status_bg", "tab_active", "tab_inactive", "sidebar_bg", "cursor"]
    );
    assert_eq!(t.get_field_by_index(0), "#0d0014");
    assert_eq!(t.get_field_by_index(10), "#00e5cc");
    assert_eq!(t.get_field_by_index(11), "");
}

#[test]
fn theme_field_write_then_read() {
    let mut t = Theme::default_theme();
    let before = colors(&t);
    t.set_field_by_index(4, "#123456".to_string());
    assert_eq!(t.get_field_by_index(4), "#123456");
    assert_eq!(t.link, "#123456");
    for i in 0..11 {
        if i != 4 {
            assert_eq!(t.get_field_by_index(i), before[i]);
        }
    }
    t.set_field_by_index(99, "#000000".to_string());
    let mut expected = before.clone();
    expected[4] = "#123456".to_string();
    assert_eq!(colors(&t), expected);
}

#[test]
fn colors_parse() {
    assert_eq!(Theme::parse_color("#1e1e2e"), Color::Rgb(0x1e, 0x1e, 0x2e));
    assert_eq!(Theme::parse_color("FFaa00"), Color::Rgb(255, 170, 0));
    assert_eq!(Theme::parse_color("##00ff41"), Color::Rgb(0, 255, 65));
    assert_eq!(Theme::parse_color("#12345"), Color::Reset);
    assert_eq!(Theme::parse_color("#12345g"), Color::Reset);
    assert_eq!(Theme::parse_color(""), Color::Reset);
}

#[test]
fn recent_vaults_move_to_front() {
    let mut v = VaultConfig::default();
    assert!(v.path.is_none());
    v.add_recent("/a");
    v.add_recent("/b");
    v.add_recent("/c");
    assert_eq!(v.recent, vec!["/c", "/b", "/a"]);
    v.add_recent("/a");
    assert_eq!(v.recent, vec!["/a", "/c", "/b"]);
    assert_eq!(v.path.as_deref(), Some("/a"));
    v.add_recent("/a");
    assert_eq!(v.recent, vec!["/a", "/c", "/b"]);
    v.remove_recent(1);
    assert_eq!(v.recent, vec!["/a", "/b"]);
    v.remove_recent(9);
    assert_eq!(v.recent, vec!["/a", "/b"]);
    v.last_open_notes = vec!["/a/n.md".to_string()];
    v.remove_recent(0);
    assert_eq!(v.recent, vec!["/b"]);
    assert_eq!(v.last_open_notes, vec!["/a/n.md"]);
    assert_eq!(v.path.as_deref(), Some("/a"));
    assert!(!v.has_default_dir());
    v.default_vaults_dir = Some("/v".to_string());
    assert!(v.has_default_dir());
}

#[test]
fn recent_vaults_are_capped() {
    let mut v = VaultConfig::default();
    for i in 0..30 {
        v.add_recent(&format!("/v{}", i));
    }
    assert_eq!(v.recent.len(), MAX_RECENT);
    assert_eq!(v.recent[0], "/v29");
    assert_eq!(v.recent[MAX_RECENT - 1], "/v10");
}

#[test]
fn settings_defaults_and_paths() {
    let s = Settings::default();
    assert_eq!(s.view_mode, ViewMode::Editor);
    assert!(s.vault.recent.is_empty());
    assert_eq!(Settings::config_path_in("/home/u/.config"), "/home/u/.config/sdrx-mimic/config.toml");
    assert_eq!(Config::themes_dir_in("/cfg/"), "/cfg/sdrx-mimic/themes");
    assert!(Settings::config_path().ends_with("sdrx-mimic/config.toml"));
    assert!(Config::config_path().ends_with("sdrx-mimic/config.toml"));
    assert!(Config::themes_dir().ends_with("sdrx-mimic/themes"));
}

#[test]
fn presets_apply() {
    let mut c = Config::default();
    assert_eq!(c.active_preset, 0);
    c.apply_preset(1);
    assert_eq!(c.active_preset, 1);
    assert_eq!(colors(&c.theme), colors(&Theme::matrix()));
    c.user_themes.push(("mio".to_string(), Theme::sdrx()));
    c.apply_preset(4);
    assert_eq!(colors(&c.theme), colors(&Theme::sdrx()));
    c.apply_preset(9);
    assert_eq!(c.active_preset, 9);
    assert_eq!(colors(&c.theme), colors(&Theme::sdrx()));
    c.apply_preset(3);
    assert_eq!(colors(&c.theme), colors(&Theme::default_theme()));
}

#[test]
fn editing_switches_to_custom() {
    let mut c = Config::default();
    c.apply_preset(2);
    c.switch_to_custom_copying_current();
    assert_eq!(c.active_preset, CUSTOM_PRESET);
    assert_eq!(colors(&c.custom_theme), colors(&Theme::sdrx()));
    c.theme.bg = "#ffffff".to_string();
    c.switch_to_custom_copying_current();
    assert_eq!(c.custom_theme.bg, "#0d0014");
    c.adopt_theme(Theme::matrix());
    assert_eq!(c.active_preset, CUSTOM_PRESET);
    assert_eq!(colors(&c.custom_theme), colors(&Theme::matrix()));
    assert_eq!(colors(&c.theme), colors(&Theme::matrix()));
}

#[test]
fn join_rules() {
    assert_eq!(join_path("/a", "b"), "/a/b");
    assert_eq!(join_path("/a/", "b"), "/a/b");
    assert_eq!(join_path("", "b"), "b");
    assert_eq!(join_path("/a", "/b"), "/b");
    assert_eq!(join_path("a", ""), "a/");
}

fn manifest(name: &str, enabled: bool, perms: &[&str]) -> Manifest {
    Manifest {
        name: name.to_string(),
        version: "1.0".to_string(),
        author: "yo".to_string(),
        description: "hace cosas".to_string(),
        language: Language::Lua,
        enabled,
        permissions: perms.iter().map(|p| p.to_string()).collect(),
    }
}

struct Fake {
    tag: String,
    answer: Option<String>,
    notes: Vec<String>,
    calls: usize,
}

impl ExtRuntime for Fake {
    fn call_hook(&mut self, event: &HookEvent) -> HookResult {
        self.calls += 1;
        HookResult::Text(format!("{}:{}", self.tag, event.name()))
    }

    fn dispatch_command(&mut self, name: &str, _args: &[String]) -> Option<String> {
        self.calls += 1;
        self.answer.as_ref().map(|a| format!("{} {}", a, name))
    }

    fn drain_notifications(&mut self) -> Vec<String> {
        std::mem::take(&mut self.notes)
    }
}

fn fake(tag: &str, answer: Option<&str>, notes: &[&str]) -> Option<Fake> {
    Some(Fake {
        tag: tag.to_string(),
        answer: answer.map(|a| a.to_string()),
        notes: notes.iter().map(|n| n.to_string()).collect(),
        calls: 0,
    })
}

fn texts(rs: &[HookResult]) -> Vec<String> {
    rs.iter()
        .map(|r| match r {
            HookResult::Text(t) => t.clone(),
            HookResult::Empty => String::new(),
        })
        .collect()
}

#[test]
fn manifest_permissions() {
    let m = manifest("a", true, &["hooks.save", "fs.write"]);
    assert!(m.has_permission("hooks.save"));
    assert!(!m.has_permission("hooks.open"));
    assert!(m.has_dangerous_permissions());
    assert!(manifest("b", true, &["process.run"]).has_dangerous_permissions());
    assert!(!manifest("c", true, &["commands"]).has_dangerous_permissions());
}

#[test]
fn entries_and_scripts() {
    let e: ExtensionEntry<Fake> = ExtensionEntry::new(manifest("a", true, &[]), "/x/a".to_string(), None);
    assert!(!e.has_runtime());
    assert_eq!(e.script_name(), "main.lua");
    assert_eq!(e.script_path(), "/x/a/main.lua");
    let mut m = manifest("b", true, &[]);
    m.language = Language::Rhai;
    let mut e2: ExtensionEntry<Fake> = ExtensionEntry::new(m, "/x/b/".to_string(), None);
    assert_eq!(e2.script_path(), "/x/b/main.rhai");
    e2.set_runtime(fake("b", None, &[]));
    assert!(e2.has_runtime());
}

#[test]
fn manager_directories() {
    let m: ExtensionManager<Fake> = ExtensionManager::new_for_vault("/v");
    assert_eq!(m.extensions_dir(), "/v/.mimic/extensions");
    assert_eq!(m.vault_root(), Some("/v"));
    assert_eq!(ExtensionManager::<Fake>::vault_extensions_dir("/w/"), "/w/.mimic/extensions");
    let g: ExtensionManager<Fake> = ExtensionManager::new();
    assert!(g.extensions_dir().ends_with("sdrx-mimic/extensions"));
    assert_eq!(g.vault_root(), None);
    let r: ExtensionManager<Fake> = resolve_manager(&Some("/v".to_string()));
    assert_eq!(r.extensions_dir(), "/v/.mimic/extensions");
    let r2: ExtensionManager<Fake> = resolve_manager(&None);
    assert_eq!(r2.vault_root(), None);
    assert!(r2.extensions.is_empty());
}

fn sample_manager() -> ExtensionManager<Fake> {
    let mut m = ExtensionManager::with_dir("/e".to_string(), None);
    m.extensions.push(ExtensionEntry::new(manifest("uno", true, &["hooks.save", "commands"]), "/e/uno".into(), fake("uno", None, &["n1"])));
    m.extensions.push(ExtensionEntry::new(manifest("dos", false, &["hooks.save", "commands"]), "/e/dos".into(), fake("dos", Some("dos"), &["n2"])));
    m.extensions.push(ExtensionEntry::new(manifest("tres", true, &["hooks.save", "commands"]), "/e/tres".into(), fake("tres", Some("tres"), &[])));
    m.extensions.push(ExtensionEntry::new(manifest("cuatro", true, &["hooks.open"]), "/e/cuatro".into(), fake("cuatro", Some("cuatro"), &["n4"])));
    m.extensions.push(ExtensionEntry::new(manifest("cinco", true, &["hooks.save"]), "/e/cinco".into(), None));
    m
}

#[test]
fn hooks_reach_enabled_permitted_running_extensions() {
    let mut m = sample_manager();
    let save = HookEvent::NoteSave { path: "/v/a.md".into(), content: "x".into() };
    assert_eq!(texts(&m.fire_hook(&save)), vec!["uno:on_save", "tres:on_save"]);
    let open = HookEvent::NoteOpen { path: "/v/a.md".into(), content: "x".into() };
    assert_eq!(texts(&m.fire_hook(&open)), vec!["cuatro:on_open"]);
    let vault = HookEvent::VaultOpen { path: "/v".into() };
    assert!(m.fire_hook(&vault).is_empty());
    assert_eq!(m.extensions.len(), 5);
    assert!(m.extensions[4].runtime.is_none());
    assert_eq!(m.extensions[1].runtime.as_ref().unwrap().calls, 0);
}

#[test]
fn commands_go_to_the_first_answer() {
    let mut m = sample_manager();
    assert_eq!(m.dispatch_command("wc", &[]), Some("tres wc".to_string()));
    assert_eq!(m.extensions[0].runtime.as_ref().unwrap().calls, 1);
    assert_eq!(m.extensions[1].runtime.as_ref().unwrap().calls, 0);
    assert_eq!(m.extensions[3].runtime.as_ref().unwrap().calls, 0);
    assert!(m.extensions.iter().take(4).all(|e| e.runtime.is_some()));
    let mut empty: ExtensionManager<Fake> = ExtensionManager::with_dir("/e".into(), None);
    assert_eq!(empty.dispatch_command("wc", &[]), None);
}

#[test]
fn notifications_are_drained_in_order() {
    let mut m = sample_manager();
    assert_eq!(m.drain_notifications(), vec!["n1", "n2", "n4"]);
    assert!(m.drain_notifications().is_empty());
    assert!(m.extensions.iter().take(4).all(|e| e.runtime.is_some()));
    assert!(m.extensions[4].runtime.is_none());
}

#[test]
fn enable_disable_forget() {
    let mut m = sample_manager();
    assert_eq!(m.position("tres"), Some(2));
    assert_eq!(m.position("seis"), None);
    assert!(m.enable(1));
    assert!(m.extensions[1].manifest.enabled);
    assert!(m.extensions[1].has_runtime());
    assert!(m.disable(0));
    assert!(!m.extensions[0].manifest.enabled);
    assert!(!m.extensions[0].has_runtime());
    assert!(!m.enable(7));
    assert!(!m.disable(7));
    m.forget("dos");
    let names: Vec<String> = m.extensions.iter().map(|e| e.manifest.name.clone()).collect();
    assert_eq!(names, vec!["uno", "tres", "cuatro", "cinco"]);
    assert_eq!(m.extensions_dir(), "/e");
}

#[test]
fn hook_names_and_permissions() {
    let e = HookEvent::ModeChange { from: "NORMAL".into(), to: "INSERT".into() };
    assert_eq!(e.name(), "on_mode_change");
    assert_eq!(e.required_permission(), "hooks.mode");
    let b = HookEvent::MarkdownBlock { lang: "rust".into(), code: "fn".into() };
    assert_eq!(b.name(), "on_markdown_block");
    assert_eq!(b.required_permission(), "markdown");
    let v = HookEvent::VaultOpen { path: "/v".into() };
    assert_eq!(v.required_permission(), "hooks.vault");
}

#[test]
fn quick_note_text() {
    let (p, t) = quick_note("/v", 1700000000, "hola");
    assert_eq!(p, "/v/1700000000.md");
    assert_eq!(t, "# Nota rápida\n\nhola\n");
    let (p2, _) = quick_note("/v/", 0, "");
    assert_eq!(p2, "/v/0.md");
}

#[test]
fn extension_listing_lines() {
    let m = manifest("wc", true, &[]);
    assert_eq!(ext_line(&m), "  wc v1.0 [activa] — hace cosas");
    assert_eq!(ext_brief(&m), "wc(on)");
    let off = manifest("wc", false, &[]);
    assert_eq!(ext_line(&off), "  wc v1.0 [inactiva] — hace cosas");
    assert_eq!(ext_brief(&off), "wc(off)");
}

#[test]
fn base_directories_fall_back() {
    assert_eq!(mimic::config::settings::config_base_from(Some("/home/u/.config".to_string())), "/home/u/.config");
    assert_eq!(mimic::config::settings::config_base_from(None), "~/.config");
    assert!(!mimic::config::settings::config_base().is_empty());
    assert_eq!(mimic::ui::file_browser::FileBrowserState::start_dir_from(Some("/home/u".to_string())), "/home/u");
    assert_eq!(mimic::ui::file_browser::FileBrowserState::start_dir_from(None), "/");
}

#[test]
fn file_extensions_follow_the_last_dot() {
    assert!(mimic::paths::has_md_extension("/v/nota.md"));
    assert!(mimic::paths::has_md_extension("/v/a.b.md"));
    assert!(!mimic::paths::has_md_extension("/v/.md"));
    assert!(!mimic::paths::has_md_extension("/v/nota.md.bak"));
    assert!(!mimic::paths::has_md_extension("/v/md"));
}
