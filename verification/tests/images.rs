use mimic::config::theme::Color;
use mimic::ui::images::{
    contains_text, encode_kitty, image_lookup, is_svg, kitty_sequences, kitty_supported, mosaic_from_pixels, mosaic_lines,
    unpremultiply, TermEnv,
};

fn cells(lines: &[Vec<mimic::ui::styled::Span>]) -> Vec<Vec<(String, Option<Color>, Option<Color>)>> {
    lines
        .iter()
        .map(|l| l.iter().map(|s| (s.text.clone(), s.style.fg, s.style.bg)).collect())
        .collect()
}

fn rgb(r: u8, g: u8, b: u8) -> Option<Color> {
    Some(Color::Rgb(r, g, b))
}

#[test]
fn mosaic_cells_take_two_pixels() {
    // 2 columns, 2 pixel rows: one cell row
    let px = vec![1, 2, 3, 255, 4, 5, 6, 255, 7, 8, 9, 255, 10, 11, 12, 255];
    let m = mosaic_from_pixels(&px, 2, 1);
    assert_eq!(
        cells(&m),
        vec![vec![("▀".to_string(), rgb(1, 2, 3), rgb(7, 8, 9)), ("▀".to_string(), rgb(4, 5, 6), rgb(10, 11, 12))]]
    );
    assert!(mosaic_from_pixels(&Vec::new(), 0, 3).iter().all(|l| l.is_empty()));
}

#[test]
fn mosaic_of_an_image() {
    let px = vec![1, 2, 3, 255, 4, 5, 6, 255, 7, 8, 9, 255, 10, 11, 12, 255];
    let m = mosaic_lines(&px, 2, 2, 2, 1).unwrap();
    assert_eq!(cells(&m), cells(&mosaic_from_pixels(&px, 2, 1)));
    // zero cells count as one
    let one = mosaic_lines(&px, 2, 2, 0, 0).unwrap();
    assert_eq!(one.len(), 1);
    assert_eq!(one[0].len(), 1);
    // too few pixels for the image
    assert!(mosaic_lines(&px[..12].to_vec(), 2, 2, 2, 1).is_none());
}

#[test]
fn premultiplied_alpha_is_undone() {
    let mut px = vec![100, 50, 200, 128, 10, 20, 30, 0, 1, 2, 3, 255, 7, 8];
    unpremultiply(&mut px);
    assert_eq!(px, vec![199, 99, 255, 128, 10, 20, 30, 0, 1, 2, 3, 255, 7, 8]);
    let mut e: Vec<u8> = Vec::new();
    unpremultiply(&mut e);
    assert!(e.is_empty());
}

#[test]
fn svg_paths() {
    assert!(is_svg("logo.svg"));
    assert!(is_svg("/a/b/LOGO.SVG"));
    assert!(!is_svg("logo.png"));
    assert!(!is_svg("svg"));
}

#[test]
fn kitty_chunks() {
    assert_eq!(kitty_sequences(&b"QUJD".to_vec(), 1, 1, 2, 1), b"\x1b_Ga=T,f=32,s=1,v=1,c=2,r=1,m=0;QUJD\x1b\\".to_vec());
    assert!(kitty_sequences(&Vec::new(), 1, 1, 1, 1).is_empty());
    let payload = vec![b'A'; 5000];
    let out = kitty_sequences(&payload, 30, 20, 4, 3);
    let mut want = b"\x1b_Ga=T,f=32,s=30,v=20,c=4,r=3,m=1;".to_vec();
    want.extend(vec![b'A'; 4096]);
    want.extend(b"\x1b\\\x1b_Gm=0;");
    want.extend(vec![b'A'; 904]);
    want.extend(b"\x1b\\");
    assert_eq!(out, want);
}

#[test]
fn kitty_encoding_of_pixels() {
    let red = vec![255, 0, 0, 255];
    assert_eq!(
        encode_kitty(&red, 1, 1, 2, 1),
        Some(b"\x1b_Ga=T,f=32,s=1,v=1,c=2,r=1,m=0;/wAA/w==\x1b\\".to_vec())
    );
    // extra bytes past the image are not sent
    let more = vec![255, 0, 0, 255, 9, 9];
    assert_eq!(encode_kitty(&more, 1, 1, 2, 1), encode_kitty(&red, 1, 1, 2, 1));
    assert_eq!(encode_kitty(&red, 2, 1, 2, 1), None);
    let wide = vec![0u8; 2000 * 4];
    let big = encode_kitty(&wide, 2000, 1, 10, 1).unwrap();
    assert!(big.starts_with(b"\x1b_Ga=T,f=32,s=1600,v=1,c=10,r=1,m="));
    assert_eq!(encode_kitty(&wide[..100].to_vec(), 2000, 1, 10, 1), None);
}

#[test]
fn substring_search() {
    assert!(contains_text("xterm-kitty", "kitty"));
    assert!(contains_text("abc", ""));
    assert!(!contains_text("ab", "abc"));
    assert!(!contains_text("kit ty", "kitty"));
}

fn env() -> TermEnv {
    TermEnv {
        term_graphics: false,
        kitty_window_id: false,
        kitty_pid: false,
        ghostty_resources_dir: false,
        wezterm_executable: false,
        wezterm_pane: false,
        term: None,
        term_program: None,
    }
}

#[test]
fn kitty_terminals_are_recognised() {
    assert!(!kitty_supported(&env()));
    assert!(kitty_supported(&TermEnv { kitty_window_id: true, ..env() }));
    assert!(kitty_supported(&TermEnv { wezterm_pane: true, ..env() }));
    assert!(kitty_supported(&TermEnv { term: Some("xterm-kitty".to_string()), ..env() }));
    assert!(!kitty_supported(&TermEnv { term: Some("xterm-KITTY".to_string()), ..env() }));
    assert!(kitty_supported(&TermEnv { term_program: Some("WezTerm".to_string()), ..env() }));
    assert!(kitty_supported(&TermEnv { term_program: Some("ghostty".to_string()), ..env() }));
    assert!(!kitty_supported(&TermEnv { term_program: Some("iTerm.app".to_string()), ..env() }));
}

#[test]
fn image_paths_are_looked_up_vault_first() {
    assert_eq!(image_lookup("/abs/a.png", Some("/v/notes"), Some("/v")), (None, "/abs/a.png".to_string()));
    assert_eq!(
        image_lookup("img/a.png", Some("/v/notes"), Some("/v")),
        (Some("/v/img/a.png".to_string()), "/v/notes/img/a.png".to_string())
    );
    assert_eq!(image_lookup("a.png", None, Some("/v/")), (Some("/v/a.png".to_string()), "/v/a.png".to_string()));
    assert_eq!(image_lookup("a.png", Some("/n"), None), (None, "/n/a.png".to_string()));
    assert_eq!(image_lookup("a.png", None, None), (None, "a.png".to_string()));
}
