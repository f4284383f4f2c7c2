use mimic::command::{command_line_key, parse_command, tab_close, CommandKey, CommandKind, TabClose};
use mimic::editor::{detect_list_prefix, insert_action, leave_insert, ordered_list_number, push_decimal, InsertAction, LeavePlan};
use mimic::keys::{route_key, Key, KeyCode, Modifiers, Route};
use mimic::modes::{AppMode, ViewMode};
use mimic::normal::{normal_action, scroll_preview, sidebar_scroll, NormalAction, Prefill};
use mimic::tabs::TabList;

fn none() -> Modifiers {
    Modifiers { ctrl: false, shift: false, alt: false, other: false }
}

fn ctrl() -> Modifiers {
    Modifiers { ctrl: true, shift: false, alt: false, other: false }
}

fn shift() -> Modifiers {
    Modifiers { ctrl: false, shift: true, alt: false, other: false }
}

fn key(code: KeyCode, mods: Modifiers) -> Key {
    Key { code, mods }
}

fn ch(c: char) -> Key {
    key(KeyCode::Char(c), none())
}

#[test]
fn push_decimal_writes_digits() {
    let mut s = String::from("n=");
    push_decimal(&mut s, 0);
    push_decimal(&mut s, 1207);
    assert_eq!(s, "n=01207");
    let mut t = String::new();
    push_decimal(&mut t, u64::MAX);
    assert_eq!(t, u64::MAX.to_string());
}

#[test]
fn ordered_number_is_read() {
    assert_eq!(ordered_list_number("3. tres"), Some(3));
    assert_eq!(ordered_list_number("   12. x"), Some(12));
    assert_eq!(ordered_list_number("12.x"), None);
    assert_eq!(ordered_list_number(". x"), None);
    assert_eq!(ordered_list_number("- x"), None);
    // more digits than a u64 holds read as 1
    assert_eq!(ordered_list_number("99999999999999999999999. x"), Some(1));
}

#[test]
fn bullet_prefixes_continue() {
    assert_eq!(detect_list_prefix("- item"), Some("- ".to_string()));
    assert_eq!(detect_list_prefix("  * item"), Some("  * ".to_string()));
    assert_eq!(detect_list_prefix("\t+ x"), Some("\t+ ".to_string()));
    assert_eq!(detect_list_prefix("> cita"), Some("> ".to_string()));
    assert_eq!(detect_list_prefix("-item"), None);
    assert_eq!(detect_list_prefix("texto"), None);
    assert_eq!(detect_list_prefix(""), None);
}

#[test]
fn ordered_prefixes_count_up() {
    assert_eq!(detect_list_prefix("1. uno"), Some("2. ".to_string()));
    assert_eq!(detect_list_prefix("9. x"), Some("10. ".to_string()));
    assert_eq!(detect_list_prefix("  41. x"), Some("  42. ".to_string()));
    assert_eq!(detect_list_prefix("99999999999999999999999. x"), Some("2. ".to_string()));
}

#[test]
fn enter_when_the_number_gains_a_digit() {
    let enter = key(KeyCode::Enter, none());
    match insert_action(enter, "9. x") {
        InsertAction::ContinueList(p) => assert_eq!(p, "10. "),
        _ => panic!("expected a continuation"),
    }
    match insert_action(enter, "  99. y") {
        InsertAction::ContinueList(p) => assert_eq!(p, "  100. "),
        _ => panic!("expected a continuation"),
    }
    assert!(matches!(insert_action(enter, "9. "), InsertAction::EndList));
    assert!(matches!(insert_action(enter, "99. "), InsertAction::EndList));
    assert!(matches!(insert_action(enter, "9.  "), InsertAction::EndList));
    // the largest number wraps around, as a u64 does
    assert_eq!(detect_list_prefix("18446744073709551615. x"), Some("0. ".to_string()));
    match insert_action(enter, "18446744073709551615. x") {
        InsertAction::ContinueList(p) => assert_eq!(p, "0. "),
        _ => panic!("expected a continuation"),
    }
}

#[test]
fn insert_keys() {
    assert!(matches!(insert_action(key(KeyCode::Char('s'), ctrl()), ""), InsertAction::Save));
    assert!(matches!(insert_action(key(KeyCode::Char('c'), ctrl()), ""), InsertAction::CopySelection));
    let cs = Modifiers { ctrl: true, shift: true, alt: false, other: false };
    assert!(matches!(insert_action(key(KeyCode::Char('C'), cs), ""), InsertAction::CopySelection));
    assert!(matches!(insert_action(key(KeyCode::Char('z'), ctrl()), ""), InsertAction::Undo));
    assert!(matches!(insert_action(key(KeyCode::Char('y'), ctrl()), ""), InsertAction::Redo));
    assert!(matches!(insert_action(key(KeyCode::Esc, none()), ""), InsertAction::Leave));
    assert!(matches!(insert_action(key(KeyCode::Backspace, ctrl()), ""), InsertAction::DeleteWord));
    assert!(matches!(insert_action(key(KeyCode::Char('w'), ctrl()), ""), InsertAction::DeleteWord));
    assert!(matches!(insert_action(ch('"'), ""), InsertAction::InsertPair('"')));
    assert!(matches!(insert_action(ch('`'), ""), InsertAction::InsertPair('`')));
    assert!(matches!(insert_action(ch('a'), ""), InsertAction::Input));
    assert!(matches!(insert_action(key(KeyCode::Backspace, none()), ""), InsertAction::Input));
}

#[test]
fn enter_on_list_items() {
    let enter = key(KeyCode::Enter, none());
    match insert_action(enter, "- compra") {
        InsertAction::ContinueList(p) => assert_eq!(p, "- "),
        _ => panic!("expected a continuation"),
    }
    match insert_action(enter, "3. paso") {
        InsertAction::ContinueList(p) => assert_eq!(p, "4. "),
        _ => panic!("expected a continuation"),
    }
    assert!(matches!(insert_action(enter, "- "), InsertAction::EndList));
    assert!(matches!(insert_action(enter, "  -   "), InsertAction::EndList));
    assert!(matches!(insert_action(enter, "hola"), InsertAction::Input));
    // Shift+Enter is a plain new line
    assert!(matches!(insert_action(key(KeyCode::Enter, shift()), "- a"), InsertAction::Input));
}

fn parsed(s: &str) -> (CommandKind, Vec<String>) {
    let c = parse_command(s);
    (c.kind, c.args)
}

fn strings(v: &[&str]) -> Vec<String> {
    v.iter().map(|s| s.to_string()).collect()
}

#[test]
fn simple_commands() {
    assert_eq!(parsed("w"), (CommandKind::Save, vec![]));
    assert_eq!(parsed("  w  "), (CommandKind::Save, vec![]));
    assert_eq!(parsed("q"), (CommandKind::Quit, vec![]));
    assert_eq!(parsed("q!"), (CommandKind::ForceQuit, vec![]));
    assert_eq!(parsed("qa"), (CommandKind::QuitAll, vec![]));
    assert_eq!(parsed("qa!"), (CommandKind::QuitAll, vec![]));
    assert_eq!(parsed("wq"), (CommandKind::SaveQuit, vec![]));
    assert_eq!(parsed("home"), (CommandKind::Home, vec![]));
    assert_eq!(parsed("rm!"), (CommandKind::Delete, vec![]));
    assert_eq!(parsed("delete"), (CommandKind::Delete, vec![]));
    assert_eq!(parsed("temas"), (CommandKind::Themes, vec![]));
    assert_eq!(parsed("help"), (CommandKind::Help, vec![]));
}

#[test]
fn commands_with_arguments() {
    assert_eq!(parsed("rename  nueva nota "), (CommandKind::Rename, strings(&["nueva nota"])));
    assert_eq!(parsed("mv x"), (CommandKind::Rename, strings(&["x"])));
    assert_eq!(parsed("new idea"), (CommandKind::New, strings(&["idea"])));
    assert_eq!(parsed("mkdir docs"), (CommandKind::Mkdir, strings(&["docs"])));
    assert_eq!(parsed("vault /tmp/v"), (CommandKind::Vault, strings(&["/tmp/v"])));
    assert_eq!(parsed("export-tema mio"), (CommandKind::ExportTheme, strings(&["mio"])));
    assert_eq!(parsed("import-tema mio"), (CommandKind::ImportTheme, strings(&["mio"])));
    assert_eq!(parsed("w "), (CommandKind::Save, vec![]));
    assert_eq!(parsed("rename"), (CommandKind::Extension, strings(&["rename"])));
}

#[test]
fn ext_subcommands() {
    assert_eq!(parsed("ext list"), (CommandKind::ExtList, vec![]));
    assert_eq!(parsed("ext install /a/b"), (CommandKind::ExtInstall, strings(&["/a/b"])));
    assert_eq!(parsed("ext remove x"), (CommandKind::ExtRemove, strings(&["x"])));
    assert_eq!(parsed("ext enable x"), (CommandKind::ExtEnable, strings(&["x"])));
    assert_eq!(parsed("ext disable x"), (CommandKind::ExtDisable, strings(&["x"])));
    assert_eq!(parsed("ext frob"), (CommandKind::ExtUsage, vec![]));
    assert_eq!(parsed("ext"), (CommandKind::Extension, strings(&["ext"])));
}

#[test]
fn extension_commands_keep_their_words() {
    assert_eq!(parsed("wc  a   b"), (CommandKind::Extension, strings(&["wc", "a", "b"])));
    assert_eq!(parsed("stats"), (CommandKind::Extension, strings(&["stats"])));
}

#[test]
fn command_line_editing() {
    let mut b = String::from("re");
    assert!(matches!(command_line_key(&mut b, ch('n')), CommandKey::Edited));
    assert_eq!(b, "ren");
    assert!(matches!(command_line_key(&mut b, key(KeyCode::Backspace, none())), CommandKey::Edited));
    assert_eq!(b, "re");
    assert!(matches!(command_line_key(&mut b, key(KeyCode::Up, none())), CommandKey::Ignored));
    assert_eq!(b, "re");
    match command_line_key(&mut b, key(KeyCode::Enter, none())) {
        CommandKey::Submit(c) => assert_eq!(c, "re"),
        _ => panic!("expected a submit"),
    }
    assert_eq!(b, "");
    let mut e = String::new();
    assert!(matches!(command_line_key(&mut e, key(KeyCode::Backspace, none())), CommandKey::Edited));
    assert_eq!(e, "");
    let mut c = String::from("abc");
    assert!(matches!(command_line_key(&mut c, key(KeyCode::Esc, none())), CommandKey::Cancel));
    assert_eq!(c, "");
}

#[test]
fn normal_mode_keys() {
    assert_eq!(normal_action(key(KeyCode::Char('t'), ctrl()), ViewMode::Editor), NormalAction::OpenSettings);
    assert_eq!(normal_action(key(KeyCode::Char('v'), ctrl()), ViewMode::Editor), NormalAction::CycleView);
    assert_eq!(normal_action(ch('i'), ViewMode::Editor), NormalAction::EnterInsert);
    assert_eq!(normal_action(ch('i'), ViewMode::Preview), NormalAction::Nothing);
    assert_eq!(normal_action(ch('e'), ViewMode::Preview), NormalAction::EnterInsert);
    assert_eq!(normal_action(ch(':'), ViewMode::Editor), NormalAction::EnterCommand(Prefill::Empty));
    assert_eq!(normal_action(key(KeyCode::Tab, none()), ViewMode::Editor), NormalAction::NextTab);
    assert_eq!(normal_action(key(KeyCode::BackTab, shift()), ViewMode::Editor), NormalAction::PrevTab);
    assert_eq!(normal_action(key(KeyCode::Down, none()), ViewMode::Editor), NormalAction::SelectDown);
    assert_eq!(normal_action(ch('k'), ViewMode::Editor), NormalAction::SelectUp);
    assert_eq!(normal_action(ch('d'), ViewMode::Split), NormalAction::ScrollPreview(true));
    assert_eq!(normal_action(ch('u'), ViewMode::Preview), NormalAction::ScrollPreview(false));
    assert_eq!(normal_action(ch('d'), ViewMode::Editor), NormalAction::Nothing);
    assert_eq!(normal_action(key(KeyCode::Enter, none()), ViewMode::Editor), NormalAction::Activate);
    assert_eq!(normal_action(ch('g'), ViewMode::Editor), NormalAction::FollowLink);
    assert_eq!(normal_action(ch('r'), ViewMode::Editor), NormalAction::EnterCommand(Prefill::Rename));
    assert_eq!(normal_action(key(KeyCode::Char('D'), shift()), ViewMode::Editor), NormalAction::EnterCommand(Prefill::Delete));
    assert_eq!(normal_action(key(KeyCode::Char('d'), ctrl()), ViewMode::Editor), NormalAction::EnterCommand(Prefill::Delete));
    assert_eq!(normal_action(key(KeyCode::Char('w'), ctrl()), ViewMode::Editor), NormalAction::CloseTab);
    assert_eq!(normal_action(key(KeyCode::Char('s'), ctrl()), ViewMode::Editor), NormalAction::Save);
    assert_eq!(normal_action(key(KeyCode::Char('c'), ctrl()), ViewMode::Editor), NormalAction::CopyNote);
    assert_eq!(normal_action(key(KeyCode::Char('h'), ctrl()), ViewMode::Editor), NormalAction::GoHome);
    assert_eq!(normal_action(ch('x'), ViewMode::Editor), NormalAction::Nothing);
    assert_eq!(Prefill::Rename.text(), "rename ");
    assert_eq!(Prefill::Delete.text(), "delete");
    assert_eq!(Prefill::Empty.text(), "");
}

#[test]
fn sidebar_scroll_follows_selection() {
    assert_eq!(sidebar_scroll(3, 10), 3);
    assert_eq!(sidebar_scroll(10, 10), 10);
    assert_eq!(sidebar_scroll(29, 10), 10);
    assert_eq!(sidebar_scroll(30, 10), 11);
    assert_eq!(sidebar_scroll(45, 0), 26);
    for sel in 0..60usize {
        for sc in 0..60usize {
            let r = sidebar_scroll(sel, sc);
            assert!(r <= sel && sel < r + 20);
        }
    }
}

#[test]
fn preview_scroll_saturates() {
    assert_eq!(scroll_preview(0, true), 5);
    assert_eq!(scroll_preview(7, false), 2);
    assert_eq!(scroll_preview(3, false), 0);
    assert_eq!(scroll_preview(u16::MAX - 2, true), u16::MAX);
}

#[test]
fn key_routing() {
    let q = key(KeyCode::Char('q'), ctrl());
    assert_eq!(route_key(true, q, AppMode::Normal), Route::Warning);
    assert_eq!(route_key(false, q, AppMode::Insert), Route::QuitSavingAll);
    assert_eq!(route_key(false, ch('q'), AppMode::Insert), Route::Mode(AppMode::Insert));
    assert_eq!(route_key(false, ch('a'), AppMode::FirstTimeSetup), Route::Mode(AppMode::FileBrowser));
}

#[test]
fn view_cycle_and_labels() {
    let v = ViewMode::default();
    assert_eq!(v, ViewMode::Editor);
    assert_eq!(v.next(), ViewMode::Split);
    assert_eq!(v.next().next(), ViewMode::Preview);
    assert_eq!(v.next().next().next(), v);
    assert_eq!(ViewMode::Split.label(), "SPLIT");
    assert_eq!(AppMode::NewVaultDialog.label(), "NUEVA VAULT");
    assert_eq!(AppMode::Command.label(), "COMMAND");
}

#[test]
fn tab_list_moves() {
    let mut t: TabList<&str> = TabList::new();
    assert_eq!(t.len(), 0);
    assert!(t.active_tab().is_none());
    t.prev();
    t.next();
    assert!(t.close_active().is_none());
    t.open("a");
    t.open("b");
    t.open("c");
    assert_eq!(t.active_tab(), Some(&"c"));
    t.next();
    assert_eq!(t.active_tab(), Some(&"a"));
    t.prev();
    assert_eq!(t.active_tab(), Some(&"c"));
    t.activate(1);
    assert_eq!(t.active_tab(), Some(&"b"));
    t.next();
    t.prev();
    assert_eq!(t.active_tab(), Some(&"b"));
    assert_eq!(t.close_active(), Some("b"));
    assert_eq!(t.len(), 2);
    assert_eq!(t.active_tab(), Some(&"c"));
    assert_eq!(t.close_active(), Some("c"));
    assert_eq!(t.active_tab(), Some(&"a"));
}

#[test]
fn quitting_a_tab_with_unsaved_changes() {
    assert_eq!(tab_close(CommandKind::Quit, true), TabClose::Refuse);
    assert_eq!(tab_close(CommandKind::Quit, false), TabClose::Close);
    assert_eq!(tab_close(CommandKind::ForceQuit, true), TabClose::Close);
    assert_eq!(tab_close(CommandKind::SaveQuit, true), TabClose::SaveAndClose);
    assert_eq!(tab_close(CommandKind::Save, true), TabClose::Keep);
    assert_eq!(tab_close(parse_command("q").kind, true), TabClose::Refuse);
}

#[test]
fn leaving_insert_saves_changes() {
    let lines = vec!["# t".to_string(), "texto".to_string()];
    assert_eq!(leave_insert(&lines, false), LeavePlan { add_newline: true, save: true });
    let ended = vec!["texto".to_string(), String::new()];
    assert_eq!(leave_insert(&ended, false), LeavePlan { add_newline: false, save: false });
    assert_eq!(leave_insert(&ended, true), LeavePlan { add_newline: false, save: true });
    assert_eq!(leave_insert(&Vec::new(), false), LeavePlan { add_newline: false, save: false });
}
