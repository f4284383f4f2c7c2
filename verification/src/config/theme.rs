//! Color themes: eleven named hex colors.
use vstd::prelude::*;
use vstd::string::*;

verus! {

/// The colors of the interface, each a `#RRGGBB` string.
pub struct Theme {
    pub bg: String,
    pub fg: String,
    pub accent: String,
    pub header: String,
    pub link: String,
    pub border: String,
    pub status_bg: String,
    pub tab_active: String,
    pub tab_inactive: String,
    pub sidebar_bg: String,
    pub cursor: String,
}

/// A terminal color: an RGB triple, the terminal's own yellow, or the
/// terminal's default.
#[derive(Debug, Clone, Copy, PartialEq, Eq, Structural)]
pub enum Color {
    Rgb(u8, u8, u8),
    Yellow,
    Reset,
}

impl View for Theme {
    /// The eleven colors in field order: bg, fg, accent, header, link,
    /// border, status_bg, tab_active, tab_inactive, sidebar_bg, cursor.
    type V = Seq<Seq<char>>;

    open spec fn view(&self) -> Seq<Seq<char>> {
        seq![
            self.bg@,
            self.fg@,
            self.accent@,
            self.header@,
            self.link@,
            self.border@,
            self.status_bg@,
            self.tab_active@,
            self.tab_inactive@,
            self.sidebar_bg@,
            self.cursor@,
        ]
    }
}

/// The number of color fields of a theme.
pub open spec fn num_fields() -> int {
    11
}

/// The field names, in field order.
pub open spec fn field_names_spec() -> Seq<Seq<char>> {
    seq![
        "bg"@,
        "fg"@,
        "accent"@,
        "header"@,
        "link"@,
        "border"@,
        "status_bg"@,
        "tab_active"@,
        "tab_inactive"@,
        "sidebar_bg"@,
        "cursor"@,
    ]
}

/// The colors of the Default preset.
pub open spec fn default_colors() -> Seq<Seq<char>> {
    seq![
        "#1e1e2e"@,
        "#cdd6f4"@,
        "#89b4fa"@,
        "#cba6f7"@,
        "#a6e3a1"@,
        "#313244"@,
        "#181825"@,
        "#89b4fa"@,
        "#585b70"@,
        "#181825"@,
        "#f5e0dc"@,
    ]
}

/// The colors of the Matrix preset.
pub open spec fn matrix_colors() -> Seq<Seq<char>> {
    seq![
        "#000000"@,
        "#00ff41"@,
        "#00ff41"@,
        "#39ff14"@,
        "#00cc33"@,
        "#003300"@,
        "#001100"@,
        "#00ff41"@,
        "#005500"@,
        "#001100"@,
        "#39ff14"@,
    ]
}

/// The colors of the SDRX preset.
pub open spec fn sdrx_colors() -> Seq<Seq<char>> {
    seq![
        "#0d0014"@,
        "#00ff00"@,
        "#00e5cc"@,
        "#bf5fff"@,
        "#ffffff"@,
        "#2d0057"@,
        "#08000f"@,
        "#00e5cc"@,
        "#ff00ff"@,
        "#08000f"@,
        "#00e5cc"@,
    ]
}

/// The names of the fixed presets, in order.
pub open spec fn preset_names_spec() -> Seq<Seq<char>> {
    seq!["Default"@, "Matrix"@, "SDRX"@, "Custom"@]
}

/// The colors of fixed preset `i`; Custom starts as a copy of Default.
pub open spec fn preset_colors(i: int) -> Seq<Seq<char>> {
    if i == 1 {
        matrix_colors()
    } else if i == 2 {
        sdrx_colors()
    } else {
        default_colors()
    }
}

/// The value of a hex digit.
pub open spec fn hex_val(c: char) -> Option<u8> {
    if '0' <= c && c <= '9' {
        Some((c as u32 - '0' as u32) as u8)
    } else if 'a' <= c && c <= 'f' {
        Some((c as u32 - 'a' as u32 + 10) as u8)
    } else if 'A' <= c && c <= 'F' {
        Some((c as u32 - 'A' as u32 + 10) as u8)
    } else {
        None
    }
}

/// What `u8::from_str_radix(s, 16)` gives for the two-character string
/// `a b`: an optional `+` and then only hex digits.
pub open spec fn hex_pair(a: char, b: char) -> Option<u8> {
    if a == '+' {
        hex_val(b)
    } else {
        match (hex_val(a), hex_val(b)) {
            (Some(x), Some(y)) => Some((x * 16 + y) as u8),
            _ => None,
        }
    }
}

/// `s` without its leading `#` characters.
pub open spec fn strip_hashes(s: Seq<char>) -> Seq<char>
    decreases s.len(),
{
    if s.len() > 0 && s[0] == '#' {
        strip_hashes(s.drop_first())
    } else {
        s
    }
}

/// The color that a `#RRGGBB` string names; anything else is `Reset`.
pub open spec fn parse_color_spec(s: Seq<char>) -> Color {
    let t = strip_hashes(s);
    if t.len() == 6 {
        match (hex_pair(t[0], t[1]), hex_pair(t[2], t[3]), hex_pair(t[4], t[5])) {
            (Some(r), Some(g), Some(b)) => Color::Rgb(r, g, b),
            _ => Color::Reset,
        }
    } else {
        Color::Reset
    }
}

fn hex_digit(c: char) -> (r: Option<u8>)
    ensures
        r == hex_val(c),
{
    if '0' <= c && c <= '9' {
        Some((c as u32 - '0' as u32) as u8)
    } else if 'a' <= c && c <= 'f' {
        Some((c as u32 - 'a' as u32 + 10) as u8)
    } else if 'A' <= c && c <= 'F' {
        Some((c as u32 - 'A' as u32 + 10) as u8)
    } else {
        None
    }
}

fn parse_pair(a: char, b: char) -> (r: Option<u8>)
    ensures
        r == hex_pair(a, b),
{
    if a == '+' {
        hex_digit(b)
    } else {
        match (hex_digit(a), hex_digit(b)) {
            (Some(x), Some(y)) => Some(x * 16 + y),
            _ => None,
        }
    }
}

fn lit(s: &str) -> (r: String)
    ensures
        r@ == s@,
{
    String::from_str(s)
}

impl Clone for Theme {
    fn clone(&self) -> (r: Self)
        ensures
            r == *self,
    {
        Theme {
            bg: self.bg.clone(),
            fg: self.fg.clone(),
            accent: self.accent.clone(),
            header: self.header.clone(),
            link: self.link.clone(),
            border: self.border.clone(),
            status_bg: self.status_bg.clone(),
            tab_active: self.tab_active.clone(),
            tab_inactive: self.tab_inactive.clone(),
            sidebar_bg: self.sidebar_bg.clone(),
            cursor: self.cursor.clone(),
        }
    }
}

impl Default for Theme {
    fn default() -> (r: Self)
        ensures
            r@ == default_colors(),
    {
        Self::default_theme()
    }
}

impl Theme {
    /// The fixed presets with their names; Custom is a placeholder that
    /// starts with the Default colors.
    pub fn presets() -> (r: Vec<(&'static str, Theme)>)
        ensures
            r@.len() == 4,
            forall|i: int|
                0 <= i < 4 ==> (#[trigger] r@[i]).0@ == preset_names_spec()[i] && r@[i].1@
                    == preset_colors(i),
    {
        let mut v = Vec::new();
        v.push(("Default", Self::default_theme()));
        v.push(("Matrix", Self::matrix()));
        v.push(("SDRX", Self::sdrx()));
        v.push(("Custom", Self::default_theme()));
        v
    }

    /// The names of the fixed presets.
    pub fn preset_names() -> (r: Vec<&'static str>)
        ensures
            r@.len() == 4,
            forall|i: int| 0 <= i < 4 ==> (#[trigger] r@[i])@ == preset_names_spec()[i],
    {
        let mut v = Vec::new();
        v.push("Default");
        v.push("Matrix");
        v.push("SDRX");
        v.push("Custom");
        v
    }

    /// The Default preset.
    pub fn default_theme() -> (r: Self)
        ensures
            r@ == default_colors(),
    {
        Theme {
            bg: lit("#1e1e2e"),
            fg: lit("#cdd6f4"),
            accent: lit("#89b4fa"),
            header: lit("#cba6f7"),
            link: lit("#a6e3a1"),
            border: lit("#313244"),
            status_bg: lit("#181825"),
            tab_active: lit("#89b4fa"),
            tab_inactive: lit("#585b70"),
            sidebar_bg: lit("#181825"),
            cursor: lit("#f5e0dc"),
        }
    }

    /// The Matrix preset.
    pub fn matrix() -> (r: Self)
        ensures
            r@ == matrix_colors(),
    {
        Theme {
            bg: lit("#000000"),
            fg: lit("#00ff41"),
            accent: lit("#00ff41"),
            header: lit("#39ff14"),
            link: lit("#00cc33"),
            border: lit("#003300"),
            status_bg: lit("#001100"),
            tab_active: lit("#00ff41"),
            tab_inactive: lit("#005500"),
            sidebar_bg: lit("#001100"),
            cursor: lit("#39ff14"),
        }
    }

    /// The SDRX preset.
    pub fn sdrx() -> (r: Self)
        ensures
            r@ == sdrx_colors(),
    {
        Theme {
            bg: lit("#0d0014"),
            fg: lit("#00ff00"),
            accent: lit("#00e5cc"),
            header: lit("#bf5fff"),
            link: lit("#ffffff"),
            border: lit("#2d0057"),
            status_bg: lit("#08000f"),
            tab_active: lit("#00e5cc"),
            tab_inactive: lit("#ff00ff"),
            sidebar_bg: lit("#08000f"),
            cursor: lit("#00e5cc"),
        }
    }

    /// Every field with its name, in field order.
    pub fn fields(&self) -> (r: Vec<(&'static str, String)>)
        ensures
            r@.len() == num_fields(),
            forall|i: int|
                0 <= i < num_fields() ==> (#[trigger] r@[i]).0@ == field_names_spec()[i] && r@[i].1@
                    == self@[i],
    {
        let mut v = Vec::new();
        v.push(("bg", self.bg.clone()));
        v.push(("fg", self.fg.clone()));
        v.push(("accent", self.accent.clone()));
        v.push(("header", self.header.clone()));
        v.push(("link", self.link.clone()));
        v.push(("border", self.border.clone()));
        v.push(("status_bg", self.status_bg.clone()));
        v.push(("tab_active", self.tab_active.clone()));
        v.push(("tab_inactive", self.tab_inactive.clone()));
        v.push(("sidebar_bg", self.sidebar_bg.clone()));
        v.push(("cursor", self.cursor.clone()));
        v
    }

    /// The value of field `idx`, or the empty string past the last field.
    pub fn get_field_by_index(&self, idx: usize) -> (r: String)
        ensures
            idx < num_fields() ==> r@ == self@[idx as int],
            idx >= num_fields() ==> r@ == Seq::<char>::empty(),
    {
        match idx {
            0 => self.bg.clone(),
            1 => self.fg.clone(),
            2 => self.accent.clone(),
            3 => self.header.clone(),
            4 => self.link.clone(),
            5 => self.border.clone(),
            6 => self.status_bg.clone(),
            7 => self.tab_active.clone(),
            8 => self.tab_inactive.clone(),
            9 => self.sidebar_bg.clone(),
            10 => self.cursor.clone(),
            _ => String::new(),
        }
    }

    /// Sets field `idx` to `val`; an index past the last field changes
    /// nothing.
    pub fn set_field_by_index(&mut self, idx: usize, val: String)
        ensures
            idx < num_fields() ==> final(self)@ == old(self)@.update(idx as int, val@),
            idx >= num_fields() ==> final(self)@ == old(self)@,
    {
        match idx {
            0 => self.bg = val,
            1 => self.fg = val,
            2 => self.accent = val,
            3 => self.header = val,
            4 => self.link = val,
            5 => self.border = val,
            6 => self.status_bg = val,
            7 => self.tab_active = val,
            8 => self.tab_inactive = val,
            9 => self.sidebar_bg = val,
            10 => self.cursor = val,
            _ => {},
        }
    }

    /// The color that a `#RRGGBB` string names (any number of leading `#`
    /// is skipped); anything else is the terminal's default color.
    pub fn parse_color(hex: &str) -> (r: Color)
        ensures
            r == parse_color_spec(hex@),
    {
        let chars = crate::text::chars_of(hex);
        let mut i: usize = 0;
        assert(chars@.subrange(0, chars@.len() as int) =~= chars@);
        while i < chars.len() && chars[i] == '#'
            invariant
                i <= chars.len(),
                strip_hashes(chars@) == strip_hashes(chars@.subrange(i as int, chars@.len() as int)),
            decreases chars.len() - i,
        {
            assert(chars@.subrange(i as int, chars@.len() as int).drop_first() =~= chars@.subrange(
                i + 1,
                chars@.len() as int,
            ));
            i = i + 1;
        }
        let ghost t = chars@.subrange(i as int, chars@.len() as int);
        assert(strip_hashes(t) == t);
        if chars.len() - i == 6 {
            assert(t[0] == chars@[i as int] && t[5] == chars@[i + 5]);
            match (
                parse_pair(chars[i], chars[i + 1]),
                parse_pair(chars[i + 2], chars[i + 3]),
                parse_pair(chars[i + 4], chars[i + 5]),
            ) {
                (Some(r), Some(g), Some(b)) => Color::Rgb(r, g, b),
                _ => Color::Reset,
            }
        } else {
            Color::Reset
        }
    }
}

/// Reading a field gives back what was last written to it, and writing one
/// field leaves every other field as it was.
pub proof fn lemma_field_write_read(t: Seq<Seq<char>>, idx: int, val: Seq<char>, other: int)
    requires
        t.len() == num_fields(),
        0 <= idx < num_fields(),
        0 <= other < num_fields(),
        other != idx,
    ensures
        t.update(idx, val)[idx] == val,
        t.update(idx, val)[other] == t[other],
        t.update(idx, val).len() == num_fields(),
{
}

/// The lowercase hexadecimal digit of `d` (below 16).
pub open spec fn hex_digit_char(d: int) -> char {
    if d < 10 {
        (48 + d) as char
    } else {
        (97 + d - 10) as char
    }
}

/// The two hexadecimal digits of the byte `v`, most significant first.
pub open spec fn hex_byte(v: u8) -> Seq<char> {
    seq![hex_digit_char(v as int / 16), hex_digit_char(v as int % 16)]
}

proof fn lemma_hex_digit(d: int)
    requires
        0 <= d < 16,
    ensures
        hex_val(hex_digit_char(d)) == Some(d as u8),
        hex_digit_char(d) != '+',
        hex_digit_char(d) != '#',
{
    if d < 10 {
        assert((48 + d) as char as u32 == 48 + d);
    } else {
        assert((97 + d - 10) as char as u32 == 97 + d - 10);
    }
}

proof fn lemma_hex_byte(v: u8)
    ensures
        hex_pair(hex_byte(v)[0], hex_byte(v)[1]) == Some(v),
        hex_byte(v)[0] != '#',
{
    lemma_hex_digit(v as int / 16);
    lemma_hex_digit(v as int % 16);
    assert((v as int / 16) * 16 + v as int % 16 == v as int);
}

/// A color written as `#` and six hexadecimal digits reads back as that
/// color: every red, green and blue value is kept.
pub proof fn lemma_hex_color_roundtrip(r: u8, g: u8, b: u8)
    ensures
        parse_color_spec(seq!['#'] + hex_byte(r) + hex_byte(g) + hex_byte(b)) == Color::Rgb(r, g, b),
{
    lemma_hex_byte(r);
    lemma_hex_byte(g);
    lemma_hex_byte(b);
    let t = hex_byte(r) + hex_byte(g) + hex_byte(b);
    let s = seq!['#'] + t;
    assert(seq!['#'] + hex_byte(r) + hex_byte(g) + hex_byte(b) =~= s);
    assert(s.drop_first() =~= t);
    assert(t.len() == 6);
    assert(t[0] == hex_byte(r)[0]);
    assert(strip_hashes(t) == t);
    assert(strip_hashes(s) == t);
    assert(t[1] == hex_byte(r)[1]);
    assert(t[2] == hex_byte(g)[0] && t[3] == hex_byte(g)[1]);
    assert(t[4] == hex_byte(b)[0] && t[5] == hex_byte(b)[1]);
}

} // verus!
