use mimic::vault::links::{
    extract_wikilinks, find_link_at_cursor, is_link_target, link_at_column, names_of_matches, resolve_link,
    RegexMatch,
};
use mimic::vault::note::{md_file_name, Note};
use mimic::vault::tree::{entries_from_walk, FileTree, WalkEntry};
use mimic::vault::Vault;

#[test]
fn wikilinks_in_order() {
    assert_eq!(extract_wikilinks("ver [[Ideas]] y [[otra nota]]."), vec!["Ideas", "otra nota"]);
    assert_eq!(extract_wikilinks("[[a]][[b]]\n[[c]]"), vec!["a", "b", "c"]);
    assert!(extract_wikilinks("sin enlaces [[]] ni [x]").is_empty());
    assert_eq!(extract_wikilinks("[[a]b]]"), Vec::<String>::new());
}

#[test]
fn link_under_cursor() {
    let text = "primera línea\nver [[Ideas]] y [[Plan]]";
    assert_eq!(find_link_at_cursor(text, 1, 4), Some("Ideas".to_string()));
    assert_eq!(find_link_at_cursor(text, 1, 8), Some("Ideas".to_string()));
    // the span reaches one past the closing brackets
    assert_eq!(find_link_at_cursor(text, 1, 13), Some("Ideas".to_string()));
    assert_eq!(find_link_at_cursor(text, 1, 14), None);
    assert_eq!(find_link_at_cursor(text, 1, 20), Some("Plan".to_string()));
    assert_eq!(find_link_at_cursor(text, 0, 3), None);
    assert_eq!(find_link_at_cursor(text, 5, 0), None);
}

#[test]
fn matches_give_names_and_columns() {
    let ms = vec![
        RegexMatch { start: 2, end: 7, group: Some("a".to_string()) },
        RegexMatch { start: 9, end: 12, group: None },
        RegexMatch { start: 12, end: 20, group: Some("b".to_string()) },
    ];
    assert_eq!(names_of_matches(&ms), vec!["a", "b"]);
    assert_eq!(link_at_column(&ms, 7), Some("a".to_string()));
    assert_eq!(link_at_column(&ms, 8), None);
    assert_eq!(link_at_column(&ms, 12), None);
    assert_eq!(link_at_column(&ms, 13), Some("b".to_string()));
    assert_eq!(link_at_column(&ms, 0), None);
}

#[test]
fn link_targets() {
    assert!(is_link_target("/v/Ideas.md", "Ideas"));
    assert!(is_link_target("/v/docs/ideas.md", " IDEAS "));
    assert!(!is_link_target("/v/Ideas.txt", "Ideas"));
    assert!(!is_link_target("/v/Ideas2.md", "Ideas"));
    let files = vec!["/v/a.md".to_string(), "/v/x/Plan.md".to_string(), "/v/plan.md".to_string()];
    assert_eq!(resolve_link(&files, "plan"), Some("/v/x/Plan.md".to_string()));
    assert_eq!(resolve_link(&files, "nada"), None);
    assert_eq!(resolve_link(&Vec::new(), "plan"), None);
}

#[test]
fn note_names() {
    let n = Note { path: "/v/docs/idea.md".to_string(), content: String::new(), dirty: false };
    assert_eq!(n.name(), "idea.md");
    assert_eq!(n.stem(), "idea");
    let root = Note { path: "/".to_string(), content: String::new(), dirty: false };
    assert_eq!(root.name(), "untitled.md");
    assert_eq!(root.stem(), "untitled");
}

#[test]
fn new_notes_get_a_heading() {
    let n = Note::new_at("/v/Plan semanal.md");
    assert_eq!(n.path, "/v/Plan semanal.md");
    assert_eq!(n.content, "# Plan semanal\n\n");
    assert!(!n.dirty);
    assert_eq!(Note::new_at("/").content, "# Nueva nota\n\n");
}

#[test]
fn md_names() {
    assert_eq!(md_file_name("idea"), "idea.md");
    assert_eq!(md_file_name("idea.md"), "idea.md");
    assert_eq!(md_file_name("idea.MD"), "idea.MD.md");
}

#[test]
fn sync_marks_changes() {
    let mut n = Note { path: "/v/a.md".to_string(), content: "uno\ndos".to_string(), dirty: false };
    n.sync(&vec!["uno".to_string(), "dos".to_string()]);
    assert!(!n.dirty);
    n.sync(&vec!["uno".to_string(), "tres".to_string(), String::new()]);
    assert!(n.dirty);
    assert_eq!(n.content, "uno\ntres\n");
    n.sync(&vec!["uno".to_string(), "tres".to_string(), String::new()]);
    assert!(n.dirty);
}

#[test]
fn rename_targets() {
    let n = Note { path: "/v/docs/a.md".to_string(), content: String::new(), dirty: false };
    assert_eq!(n.renamed_path("b"), Some("/v/docs/b.md".to_string()));
    assert_eq!(n.renamed_path("c.md"), Some("/v/docs/c.md".to_string()));
    assert_eq!(n.renamed_path(""), None);
    let bare = Note { path: "a.md".to_string(), content: String::new(), dirty: false };
    assert_eq!(bare.renamed_path("b"), Some("b.md".to_string()));
}

fn w(path: &str, depth: usize, is_dir: bool) -> WalkEntry {
    let name = path.rsplit('/').next().unwrap().to_string();
    WalkEntry { path: path.to_string(), name, depth, is_dir }
}

fn walk() -> Vec<WalkEntry> {
    vec![
        w("/v", 0, true),
        w("/v/.git", 1, true),
        w("/v/.git/x.md", 2, false),
        w("/v/a.md", 1, false),
        w("/v/docs", 1, true),
        w("/v/docs/b.md", 2, false),
        w("/v/docs/c.txt", 2, false),
        w("/v/docs/sub", 2, true),
        w("/v/docs/sub/d.md", 3, false),
        w("/v/z.md", 1, false),
    ]
}

fn paths(t: &FileTree) -> Vec<String> {
    t.entries.iter().map(|e| e.path.clone()).collect()
}

#[test]
fn walk_becomes_entries() {
    let es = entries_from_walk(&walk());
    let shown: Vec<(String, usize, bool)> = es.iter().map(|e| (e.name.clone(), e.depth, e.is_dir)).collect();
    assert_eq!(
        shown,
        vec![
            ("a.md".to_string(), 0, false),
            ("docs".to_string(), 0, true),
            ("b.md".to_string(), 1, false),
            ("sub".to_string(), 1, true),
            ("d.md".to_string(), 2, false),
            ("z.md".to_string(), 0, false),
        ]
    );
    assert!(entries_from_walk(&Vec::new()).is_empty());
}

#[test]
fn collapsing_hides_children() {
    let mut t = FileTree::load("/v", walk());
    assert_eq!(t.selected, 0);
    assert_eq!(t.visible_indices(), vec![0, 1, 2, 3, 4, 5]);
    t.move_down();
    assert_eq!(t.selected_entry().unwrap().path, "/v/docs");
    t.toggle_dir();
    assert_eq!(t.collapsed, vec!["/v/docs"]);
    assert_eq!(t.visible_indices(), vec![0, 1, 5]);
    t.move_down();
    assert_eq!(t.selected, 5);
    t.move_down();
    assert_eq!(t.selected, 5);
    t.move_up();
    assert_eq!(t.selected, 1);
    t.toggle_dir();
    assert!(t.collapsed.is_empty());
    assert_eq!(t.visible_indices(), vec![0, 1, 2, 3, 4, 5]);
    t.move_up();
    t.move_up();
    assert_eq!(t.selected, 0);
    // toggling on a note does nothing
    t.toggle_dir();
    assert!(t.collapsed.is_empty());
}

#[test]
fn nested_collapse() {
    let mut t = FileTree::load("/v", walk());
    t.selected = 3;
    t.toggle_dir();
    assert_eq!(t.visible_indices(), vec![0, 1, 2, 3, 5]);
    t.selected = 1;
    t.toggle_dir();
    assert_eq!(t.visible_indices(), vec![0, 1, 5]);
}

#[test]
fn down_then_up_returns() {
    let mut t = FileTree::load("/v", walk());
    for start in 0..5 {
        t.selected = start;
        t.move_down();
        t.move_up();
        assert_eq!(t.selected, start);
    }
}

#[test]
fn refresh_keeps_collapsed_and_clamps() {
    let mut t = FileTree::load("/v", walk());
    t.selected = 5;
    t.collapsed.push("/v/docs".to_string());
    t.refresh(vec![w("/v", 0, true), w("/v/a.md", 1, false), w("/v/docs", 1, true)]);
    assert_eq!(paths(&t), vec!["/v/a.md", "/v/docs"]);
    assert_eq!(t.selected, 1);
    assert_eq!(t.collapsed, vec!["/v/docs"]);
    t.refresh(Vec::new());
    assert_eq!(t.selected, 0);
    assert!(t.selected_entry().is_none());
}

#[test]
fn vault_targets_for_new_files() {
    let mut v = Vault { root: "/v".to_string(), tree: FileTree::load("/v", walk()) };
    // a note at the top level: its folder
    assert_eq!(v.target_dir(), "/v");
    assert_eq!(v.new_note_path("idea"), "/v/idea.md");
    v.tree.selected = 1;
    assert_eq!(v.target_dir(), "/v/docs");
    assert_eq!(v.new_note_path("plan.md"), "/v/docs/plan.md");
    assert_eq!(v.new_dir_path("nueva"), "/v/docs/nueva");
    v.tree.selected = 4;
    assert_eq!(v.target_dir(), "/v/docs/sub");
    v.tree.selected = 99;
    assert_eq!(v.target_dir(), "/v");
    v.tree.selected = 4;
    v.refresh(vec![w("/v", 0, true), w("/v/a.md", 1, false)]);
    assert_eq!(v.tree.selected, 0);
    assert_eq!(v.root, "/v");
}

#[test]
fn toggling_twice_restores_the_collapsed_folders() {
    let mut t = FileTree::load("/v", walk());
    t.collapsed = vec!["/v/x".to_string()];
    t.selected = 1;
    t.toggle_dir();
    assert_eq!(t.collapsed, vec!["/v/x", "/v/docs"]);
    t.toggle_dir();
    assert_eq!(t.collapsed, vec!["/v/x"]);
    let vis = t.visible_indices();
    let mut sorted = vis.clone();
    sorted.dedup();
    assert_eq!(sorted, vis);
}
