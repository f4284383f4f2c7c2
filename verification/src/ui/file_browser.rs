//! A directory picker: it lists the visible subdirectories of one directory
//! and moves up and down the tree.
use vstd::prelude::*;
use vstd::string::*;

use crate::keys::{Key, KeyCode};
use crate::config::theme::{parse_color_spec, Theme};
use crate::paths::{file_name_of, join_path, join_spec, opt_string_view, opt_view, parent_of, path_file_name, path_parent};
use crate::text::{string_pop, string_push, trim, trim_spec, views};
use crate::ui::styled::{bold, fg_style, line_view, lines_view, push_str, spanv, Span, SpanV, Style};

verus! {

/// What a directory is being chosen for.
#[derive(Clone, Copy, Debug, PartialEq, Eq, Structural)]
pub enum FileBrowserPurpose {
    /// First launch: the default directory for new vaults.
    FirstTimeSetup,
    /// A new default directory for new vaults.
    SetDefaultDir,
    /// An existing vault to open.
    OpenVault,
    /// The directory of one new vault, in place of the default one.
    NewVaultOverridePath,
}

pub struct FileBrowserState {
    pub current_path: String,
    /// The visible subdirectories of `current_path`, sorted.
    pub entries: Vec<String>,
    pub selected: usize,
    pub purpose: FileBrowserPurpose,
    /// The name of a folder being created, while it is typed.
    pub new_folder_input: Option<String>,
}

/// `dirs::home_dir`, as text. It reads the environment, so what comes back is
/// not named. Its source never reports an empty directory: `HOME` is taken
/// only when it is not empty, and the password database's entry likewise.
#[verifier::external_body]
fn user_home_dir() -> (r: Option<String>)
    ensures
        r matches Some(h) ==> h@.len() > 0,
{
    dirs::home_dir().map(|p| p.to_string_lossy().into_owned())
}

/// Where a browser starts when the system reports the home directory
/// `home`: that directory, or `/` when it reports none.
pub open spec fn start_dir_spec(home: Option<Seq<char>>) -> Seq<char> {
    match home {
        Some(h) => h,
        None => "/"@,
    }
}

/// The title of the browser for each purpose.
pub open spec fn title_spec(p: FileBrowserPurpose) -> Seq<char> {
    match p {
        FileBrowserPurpose::FirstTimeSetup => " Primera vez — elige dónde guardar tus vaults "@,
        FileBrowserPurpose::SetDefaultDir => " Cambiar directorio default "@,
        FileBrowserPurpose::OpenVault => " Abrir Vault existente "@,
        FileBrowserPurpose::NewVaultOverridePath => " Ruta para esta vault (solo esta vez) "@,
    }
}

/// A subdirectory whose name starts with a dot is not listed.
pub open spec fn listed(name: Seq<char>) -> bool {
    !(name.len() > 0 && name[0] == '.')
}

/// `a` comes before `b`, or equals it, in the order of their characters'
/// code points (the byte order of their UTF-8 text).
pub open spec fn lex_le(a: Seq<char>, b: Seq<char>) -> bool
    decreases a.len(),
{
    if a.len() == 0 {
        true
    } else if b.len() == 0 {
        false
    } else if a[0] != b[0] {
        a[0] < b[0]
    } else {
        lex_le(a.drop_first(), b.drop_first())
    }
}

/// The strings are in ascending order.
pub open spec fn sorted_lex(s: Seq<Seq<char>>) -> bool {
    forall|i: int, j: int| 0 <= i < j < s.len() ==> lex_le(#[trigger] s[i], #[trigger] s[j])
}

/// Of any two strings, one comes first.
pub proof fn lemma_lex_total(a: Seq<char>, b: Seq<char>)
    ensures
        lex_le(a, b) || lex_le(b, a),
    decreases a.len(),
{
    if a.len() > 0 && b.len() > 0 && a[0] == b[0] {
        lemma_lex_total(a.drop_first(), b.drop_first());
    }
}

/// The order is transitive.
pub proof fn lemma_lex_trans(a: Seq<char>, b: Seq<char>, c: Seq<char>)
    requires
        lex_le(a, b),
        lex_le(b, c),
    ensures
        lex_le(a, c),
    decreases a.len(),
{
    if a.len() > 0 && b.len() > 0 && c.len() > 0 && a[0] == b[0] && b[0] == c[0] {
        lemma_lex_trans(a.drop_first(), b.drop_first(), c.drop_first());
    }
}

proof fn lemma_lex_skip(a: Seq<char>, b: Seq<char>, i: int)
    requires
        0 <= i <= a.len(),
        i <= b.len(),
        a.take(i) == b.take(i),
    ensures
        lex_le(a, b) == lex_le(a.skip(i), b.skip(i)),
    decreases i,
{
    if i > 0 {
        assert(a[0] == a.take(i)[0]);
        assert(b[0] == b.take(i)[0]);
        assert(a.drop_first().take(i - 1) =~= a.take(i).drop_first());
        assert(b.drop_first().take(i - 1) =~= b.take(i).drop_first());
        lemma_lex_skip(a.drop_first(), b.drop_first(), i - 1);
        assert(a.drop_first().skip(i - 1) =~= a.skip(i));
        assert(b.drop_first().skip(i - 1) =~= b.skip(i));
    } else {
        assert(a.skip(0) =~= a);
        assert(b.skip(0) =~= b);
    }
}

/// Whether `a` comes before `b`, or equals it.
pub fn str_le(a: &str, b: &str) -> (r: bool)
    ensures
        r == lex_le(a@, b@),
{
    let x = crate::text::chars_of(a);
    let y = crate::text::chars_of(b);
    let mut i: usize = 0;
    while i < x.len() && i < y.len() && x[i] == y[i]
        invariant
            i <= x@.len(),
            i <= y@.len(),
            x@ == a@,
            y@ == b@,
            x@.take(i as int) == y@.take(i as int),
        decreases x.len() - i,
    {
        assert(x@.take(i + 1) =~= x@.take(i as int).push(x@[i as int]));
        assert(y@.take(i + 1) =~= y@.take(i as int).push(y@[i as int]));
        i = i + 1;
    }
    proof {
        lemma_lex_skip(x@, y@, i as int);
    }
    if i == x.len() {
        assert(x@.skip(i as int).len() == 0);
        true
    } else if i == y.len() {
        false
    } else {
        assert(x@.skip(i as int)[0] == x@[i as int]);
        assert(y@.skip(i as int)[0] == y@[i as int]);
        x[i] < y[i]
    }
}

/// A subdirectory is listed when its name does not start with a dot (and
/// it has a name).
pub open spec fn listed_path(p: Seq<char>) -> bool {
    match path_file_name(p) {
        Some(n) => listed(n),
        None => false,
    }
}

pub(crate) proof fn lemma_insert_sorted(s: Seq<Seq<char>>, x: Seq<char>, p: int)
    requires
        sorted_lex(s),
        0 <= p <= s.len(),
        forall|k: int| 0 <= k < p ==> lex_le(#[trigger] s[k], x),
        p < s.len() ==> !lex_le(s[p], x),
    ensures
        sorted_lex(s.insert(p, x)),
{
    let t = s.insert(p, x);
    assert(t.len() == s.len() + 1);
    assert forall|k: int| 0 <= k < t.len() implies #[trigger] t[k] == (if k < p {
        s[k]
    } else if k == p {
        x
    } else {
        s[k - 1]
    }) by {
        assert(t =~= s.take(p) + seq![x] + s.skip(p));
        if k > p {
            assert(s.skip(p)[k - p - 1] == s[k - 1]);
        }
    }
    if p < s.len() {
        lemma_lex_total(s[p], x);
    }
    assert forall|k: int| p <= k < s.len() implies lex_le(x, #[trigger] s[k]) by {
        if k > p {
            lemma_lex_trans(x, s[p], s[k]);
        }
    }
    assert forall|i: int, j: int| 0 <= i < j < t.len() implies lex_le(#[trigger] t[i], #[trigger] t[j]) by {
        if i < p && j > p {
            lemma_lex_trans(s[i], x, s[j - 1]);
        }
    }
}

/// The subdirectories to list, out of the directories `dirs` read from a
/// directory: the hidden ones left out, the others in ascending order.
pub fn listed_dirs(dirs: &Vec<String>) -> (r: Vec<String>)
    ensures
        sorted_lex(views(r@)),
        views(r@).to_multiset() == views(dirs@).filter(|p: Seq<char>| listed_path(p)).to_multiset(),
{
    let ghost f = |p: Seq<char>| listed_path(p);
    let ghost dv = views(dirs@);
    let mut out: Vec<String> = Vec::new();
    let mut i: usize = 0;
    proof {
        reveal(Seq::filter);
        assert(dv.take(0).filter(f) =~= Seq::<Seq<char>>::empty());
        assert(views(out@) =~= Seq::<Seq<char>>::empty());
    }
    while i < dirs.len()
        invariant
            i <= dirs@.len(),
            dv == views(dirs@),
            f == (|p: Seq<char>| listed_path(p)),
            sorted_lex(views(out@)),
            views(out@).to_multiset() == dv.take(i as int).filter(f).to_multiset(),
        decreases dirs.len() - i,
    {
        let d = &dirs[i];
        assert(dv.take(i + 1).drop_last() =~= dv.take(i as int));
        assert(dv.take(i + 1).last() == d@);
        proof {
            reveal(Seq::filter);
        }
        let keep = match file_name_of(d.as_str()) {
            Some(n) => {
                let c = crate::text::chars_of(n);
                !(c.len() > 0 && c[0] == '.')
            },
            None => false,
        };
        assert(keep == listed_path(d@));
        if keep {
            let mut p: usize = 0;
            while p < out.len() && str_le(out[p].as_str(), d.as_str())
                invariant
                    p <= out@.len(),
                    forall|k: int| 0 <= k < p ==> lex_le(#[trigger] views(out@)[k], d@),
                decreases out.len() - p,
            {
                p = p + 1;
            }
            proof {
                lemma_insert_sorted(views(out@), d@, p as int);
            }
            let ghost before = views(out@);
            out.insert(p, d.clone());
            assert(views(out@) =~= before.insert(p as int, d@));
            assert(dv.take(i + 1).filter(f) =~= dv.take(i as int).filter(f).push(d@));
            proof {
                vstd::seq_lib::to_multiset_insert(before, p as int, d@);
                vstd::seq_lib::to_multiset_build(dv.take(i as int).filter(f), d@);
            }
        } else {
            assert(dv.take(i + 1).filter(f) =~= dv.take(i as int).filter(f));
        }
        i = i + 1;
    }
    assert(dv.take(dirs@.len() as int) =~= dv);
    out
}

impl FileBrowserState {
    /// A browser for `purpose` at `path`, listing `entries` (which the
    /// caller reads from the disk).
    pub fn at(purpose: FileBrowserPurpose, path: String, entries: Vec<String>) -> (r: Self)
        ensures
            r.purpose == purpose,
            r.current_path == path,
            r.entries == entries,
            r.selected == 0,
            r.new_folder_input is None,
    {
        FileBrowserState { current_path: path, entries, selected: 0, purpose, new_folder_input: None }
    }

    /// Where a browser starts when the system reports the home directory
    /// `home`: that directory, or `/` when it reports none.
    pub fn start_dir_from(home: Option<String>) -> (r: String)
        ensures
            r@ == start_dir_spec(opt_string_view(home)),
    {
        match home {
            Some(h) => h,
            None => String::from_str("/"),
        }
    }

    /// Where a browser starts: the user's home directory, or `/` when the
    /// system reports none; never empty.
    pub fn start_dir() -> (r: String)
        ensures
            r@.len() > 0,
    {
        let home = user_home_dir();
        proof {
            reveal_strlit("/");
        }
        Self::start_dir_from(home)
    }

    /// A fresh listing of `current_path`: the selection goes back to the
    /// first entry.
    pub fn set_entries(&mut self, entries: Vec<String>)
        ensures
            final(self).entries == entries,
            final(self).selected == 0,
            final(self).current_path == old(self).current_path,
            final(self).purpose == old(self).purpose,
            final(self).new_folder_input == old(self).new_folder_input,
    {
        self.entries = entries;
        self.selected = 0;
    }

    /// Starts typing the name of a new folder.
    pub fn start_create_folder(&mut self)
        ensures
            final(self).new_folder_input matches Some(b) && b@.len() == 0,
            final(self).entries == old(self).entries,
            final(self).selected == old(self).selected,
            final(self).current_path == old(self).current_path,
            final(self).purpose == old(self).purpose,
    {
        self.new_folder_input = Some(String::new());
    }

    /// Stops typing the name of a new folder.
    pub fn cancel_create_folder(&mut self)
        ensures
            final(self).new_folder_input is None,
            final(self).entries == old(self).entries,
            final(self).selected == old(self).selected,
            final(self).current_path == old(self).current_path,
            final(self).purpose == old(self).purpose,
    {
        self.new_folder_input = None;
    }

    /// Appends `c` to the name being typed, if one is.
    pub fn push_char(&mut self, c: char)
        ensures
            match old(self).new_folder_input {
                Some(b) => final(self).new_folder_input matches Some(n) && n@ == b@.push(c),
                None => final(self).new_folder_input is None,
            },
            final(self).entries == old(self).entries,
            final(self).selected == old(self).selected,
            final(self).current_path == old(self).current_path,
            final(self).purpose == old(self).purpose,
    {
        match &mut self.new_folder_input {
            Some(b) => string_push(b, c),
            None => {},
        }
    }

    /// Removes the last character of the name being typed, if one is.
    pub fn pop_char(&mut self)
        ensures
            match old(self).new_folder_input {
                Some(b) => final(self).new_folder_input matches Some(n) && n@ == (if b@.len() > 0 {
                    b@.drop_last()
                } else {
                    b@
                }),
                None => final(self).new_folder_input is None,
            },
            final(self).entries == old(self).entries,
            final(self).selected == old(self).selected,
            final(self).current_path == old(self).current_path,
            final(self).purpose == old(self).purpose,
    {
        match &mut self.new_folder_input {
            Some(b) => {
                let _ = string_pop(b);
            },
            None => {},
        }
    }

    /// Ends typing the name of a new folder and hands back the name,
    /// trimmed, unless it is empty.
    pub fn take_folder_name(&mut self) -> (r: Option<String>)
        ensures
            final(self).new_folder_input is None,
            match old(self).new_folder_input {
                Some(b) => if trim_spec(b@).len() > 0 {
                    r matches Some(n) && n@ == trim_spec(b@)
                } else {
                    r is None
                },
                None => r is None,
            },
            final(self).entries == old(self).entries,
            final(self).selected == old(self).selected,
            final(self).current_path == old(self).current_path,
            final(self).purpose == old(self).purpose,
    {
        match self.new_folder_input.take() {
            Some(b) => {
                let t = trim(b.as_str());
                if t.as_str().unicode_len() > 0 {
                    Some(t)
                } else {
                    None
                }
            },
            None => None,
        }
    }

    /// Selects the entry `path`, if it is listed.
    pub fn select_path(&mut self, path: &str)
        ensures
            final(self).entries == old(self).entries,
            final(self).current_path == old(self).current_path,
            final(self).purpose == old(self).purpose,
            final(self).new_folder_input == old(self).new_folder_input,
            (exists|i: int| 0 <= i < old(self).entries@.len() && #[trigger] old(self).entries@[i]@ == path@)
                ==> {
                &&& final(self).entries@[final(self).selected as int]@ == path@
                &&& forall|j: int| 0 <= j < final(self).selected ==> #[trigger] old(self).entries@[j]@ != path@
            },
            !(exists|i: int| 0 <= i < old(self).entries@.len() && #[trigger] old(self).entries@[i]@ == path@)
                ==> final(self).selected == old(self).selected,
    {
        let mut i: usize = 0;
        while i < self.entries.len()
            invariant
                i <= self.entries@.len(),
                forall|j: int| 0 <= j < i ==> #[trigger] self.entries@[j]@ != path@,
                self.entries == old(self).entries,
                self.current_path == old(self).current_path,
                self.purpose == old(self).purpose,
                self.new_folder_input == old(self).new_folder_input,
                self.selected == old(self).selected,
            decreases self.entries.len() - i,
        {
            if crate::text::str_eq(self.entries[i].as_str(), path) {
                self.selected = i;
                return;
            }
            i = i + 1;
        }
    }

    /// Moves into the selected subdirectory; whether it did (the caller then
    /// lists the new directory).
    pub fn enter_selected(&mut self) -> (r: bool)
        ensures
            r == (old(self).selected < old(self).entries@.len()),
            r ==> final(self).current_path == old(self).entries@[old(self).selected as int],
            !r ==> final(self).current_path == old(self).current_path,
            final(self).entries == old(self).entries,
            final(self).selected == old(self).selected,
            final(self).purpose == old(self).purpose,
            final(self).new_folder_input == old(self).new_folder_input,
    {
        if self.selected < self.entries.len() {
            self.current_path = self.entries[self.selected].clone();
            assert(self.current_path == old(self).entries@[old(self).selected as int]);
            true
        } else {
            false
        }
    }

    /// Moves to the parent directory, if there is one; whether it did (the
    /// caller then lists the new directory).
    pub fn go_up(&mut self) -> (r: bool)
        ensures
            r == path_parent(old(self).current_path@) is Some,
            r ==> Some(final(self).current_path@) == path_parent(old(self).current_path@),
            !r ==> final(self).current_path == old(self).current_path,
            final(self).entries == old(self).entries,
            final(self).selected == old(self).selected,
            final(self).purpose == old(self).purpose,
            final(self).new_folder_input == old(self).new_folder_input,
    {
        let parent = match parent_of(self.current_path.as_str()) {
            Some(p) => String::from_str(p),
            None => {
                return false;
            },
        };
        self.current_path = parent;
        true
    }

    /// The next entry, stopping at the last.
    pub fn move_down(&mut self)
        ensures
            final(self).selected == (if old(self).selected + 1 < old(self).entries@.len() {
                old(self).selected + 1
            } else {
                old(self).selected as int
            }),
            final(self).entries == old(self).entries,
            final(self).current_path == old(self).current_path,
            final(self).purpose == old(self).purpose,
            final(self).new_folder_input == old(self).new_folder_input,
    {
        let n = self.entries.len();
        if n > 0 && self.selected < n - 1 {
            self.selected = self.selected + 1;
        }
    }

    /// The previous entry, stopping at the first.
    pub fn move_up(&mut self)
        ensures
            final(self).selected == (if old(self).selected > 0 {
                old(self).selected - 1
            } else {
                0
            }),
            final(self).entries == old(self).entries,
            final(self).current_path == old(self).current_path,
            final(self).purpose == old(self).purpose,
            final(self).new_folder_input == old(self).new_folder_input,
    {
        if self.selected > 0 {
            self.selected = self.selected - 1;
        }
    }

    /// The directory being shown, which is what Space chooses.
    pub fn selected_path(&self) -> (r: String)
        ensures
            r@ == self.current_path@,
    {
        self.current_path.clone()
    }

    /// The title of the browser.
    pub fn title(&self) -> (r: &'static str)
        ensures
            r@ == title_spec(self.purpose),
    {
        match self.purpose {
            FileBrowserPurpose::FirstTimeSetup => " Primera vez — elige dónde guardar tus vaults ",
            FileBrowserPurpose::SetDefaultDir => " Cambiar directorio default ",
            FileBrowserPurpose::OpenVault => " Abrir Vault existente ",
            FileBrowserPurpose::NewVaultOverridePath => " Ruta para esta vault (solo esta vez) ",
        }
    }
}

/// The row of the subdirectory `p`: its name (`?` when it has none) and a
/// `/`, marked `▸ ` in bold accent when selected, else indented in the link
/// color.
pub open spec fn browser_item_spec(p: Seq<char>, sel: bool, t: Theme) -> Seq<SpanV> {
    let name = match path_file_name(p) {
        Some(n) => n,
        None => "?"@,
    };
    if sel {
        seq![spanv("▸ "@ + name + "/"@, bold(fg_style(parse_color_spec(t.accent@))))]
    } else {
        seq![spanv("  "@ + name + "/"@, fg_style(parse_color_spec(t.link@)))]
    }
}

/// The rows of the browser's list; for an empty directory, a note.
pub open spec fn browser_items_spec(entries: Seq<Seq<char>>, selected: int, t: Theme) -> Seq<Seq<SpanV>> {
    if entries.len() == 0 {
        seq![seq![spanv("  (directorio vacío)"@, fg_style(parse_color_spec(t.tab_inactive@)))]]
    } else {
        Seq::new(entries.len(), |i: int| browser_item_spec(entries[i], i == selected, t))
    }
}

/// The help line of the browser: while a folder name is typed, how to end
/// it; else the keys, with what Space does for the browser's purpose.
pub open spec fn browser_help_spec(b: FileBrowserState) -> Seq<char> {
    if b.new_folder_input is Some {
        "  Enter=crear  Esc=cancelar"@
    } else {
        let action = match b.purpose {
            FileBrowserPurpose::FirstTimeSetup => "Espacio=usar como default"@,
            FileBrowserPurpose::SetDefaultDir => "Espacio=usar como default"@,
            FileBrowserPurpose::OpenVault => "Espacio=abrir vault aquí"@,
            FileBrowserPurpose::NewVaultOverridePath => "Espacio=usar esta ruta"@,
        };
        "  j/k=mover  Enter=entrar  ←/h=subir  n=nueva carpeta  "@ + action + "  Esc=cancelar"@
    }
}

impl FileBrowserState {
    /// The rows of the list in the colors of `theme`.
    pub fn items(&self, theme: &Theme) -> (r: Vec<Vec<Span>>)
        ensures
            lines_view(r@) == browser_items_spec(views(self.entries@), self.selected as int, *theme),
    {
        let ghost want = browser_items_spec(views(self.entries@), self.selected as int, *theme);
        let mut out: Vec<Vec<Span>> = Vec::new();
        if self.entries.len() == 0 {
            let mut l: Vec<Span> = Vec::new();
            l.push(Span { text: String::from_str("  (directorio vacío)"), style: Style::fg(Theme::parse_color(theme.tab_inactive.as_str())) });
            assert(line_view(l@) =~= want[0]);
            out.push(l);
            assert(lines_view(out@) =~= want);
            return out;
        }
        let accent = Theme::parse_color(theme.accent.as_str());
        let link = Theme::parse_color(theme.link.as_str());
        let mut i: usize = 0;
        while i < self.entries.len()
            invariant
                i <= self.entries@.len(),
                self.entries@.len() > 0,
                want == browser_items_spec(views(self.entries@), self.selected as int, *theme),
                accent == parse_color_spec(theme.accent@),
                link == parse_color_spec(theme.link@),
                lines_view(out@) =~= want.take(i as int),
            decreases self.entries.len() - i,
        {
            let sel = i == self.selected;
            let name: &str = match file_name_of(self.entries[i].as_str()) {
                Some(n) => n,
                None => "?",
            };
            let mut t = String::from_str(if sel {
                "▸ "
            } else {
                "  "
            });
            push_str(&mut t, name);
            push_str(&mut t, "/");
            let style = if sel {
                Style::fg(accent).bold()
            } else {
                Style::fg(link)
            };
            let mut l: Vec<Span> = Vec::new();
            l.push(Span { text: t, style });
            assert(views(self.entries@)[i as int] == self.entries@[i as int]@);
            assert(line_view(l@) =~= want[i as int]);
            let ghost before = lines_view(out@);
            out.push(l);
            assert(lines_view(out@) =~= before.push(want[i as int]));
            assert(want.take(i + 1) =~= want.take(i as int).push(want[i as int]));
            i = i + 1;
        }
        assert(want.take(self.entries@.len() as int) =~= want);
        out
    }

    /// The help line.
    pub fn help(&self) -> (r: String)
        ensures
            r@ == browser_help_spec(*self),
    {
        if self.new_folder_input.is_some() {
            return String::from_str("  Enter=crear  Esc=cancelar");
        }
        let action: &str = match self.purpose {
            FileBrowserPurpose::FirstTimeSetup => "Espacio=usar como default",
            FileBrowserPurpose::SetDefaultDir => "Espacio=usar como default",
            FileBrowserPurpose::OpenVault => "Espacio=abrir vault aquí",
            FileBrowserPurpose::NewVaultOverridePath => "Espacio=usar esta ruta",
        };
        let mut s = String::from_str("  j/k=mover  Enter=entrar  ←/h=subir  n=nueva carpeta  ");
        push_str(&mut s, action);
        push_str(&mut s, "  Esc=cancelar");
        s
    }
}

/// Where Esc leads from a browser opened for `p`.
#[derive(Clone, Copy, Debug, PartialEq, Eq, Structural)]
pub enum BrowserExit {
    Home,
    NewVaultDialog,
}

/// Where Esc leads from a browser opened for `p`: back to the new-vault
/// dialog when choosing its directory, else home.
pub open spec fn exit_spec(p: FileBrowserPurpose) -> BrowserExit {
    if p == FileBrowserPurpose::NewVaultOverridePath {
        BrowserExit::NewVaultDialog
    } else {
        BrowserExit::Home
    }
}

/// What the application is to do after a key press in the browser.
pub enum BrowserAction {
    Nothing,
    /// Esc: close the browser and go there.
    Close(BrowserExit),
    /// The directory changed: list it.
    Reload,
    /// Space: this directory was chosen, for the browser's purpose.
    Choose(String, FileBrowserPurpose),
}

/// Handles the key press `key` in the browser `b`.
pub fn browser_key(b: &mut FileBrowserState, key: Key) -> (r: BrowserAction)
    ensures
        final(b).purpose == old(b).purpose,
        final(b).entries == old(b).entries,
        final(b).new_folder_input == old(b).new_folder_input,
        ({
            let (c, s, n) = (key.code, old(b).selected, old(b).entries@.len());
            if c == KeyCode::Esc {
                (r matches BrowserAction::Close(x) && x == exit_spec(old(b).purpose))
                    && final(b).current_path == old(b).current_path && final(b).selected == s
            } else if c == KeyCode::Char('j') || c == KeyCode::Down {
                r is Nothing && final(b).current_path == old(b).current_path && final(b).selected
                    == (if s + 1 < n {
                    s + 1
                } else {
                    s as int
                })
            } else if c == KeyCode::Char('k') || c == KeyCode::Up {
                r is Nothing && final(b).current_path == old(b).current_path && final(b).selected
                    == (if s > 0 {
                    s - 1
                } else {
                    0
                })
            } else if c == KeyCode::Enter {
                &&& final(b).selected == s
                &&& s < n ==> r is Reload && final(b).current_path == old(b).entries@[s as int]
                &&& s >= n ==> r is Nothing && final(b).current_path == old(b).current_path
            } else if c == KeyCode::Char('h') || c == KeyCode::Left || c == KeyCode::Backspace {
                &&& final(b).selected == s
                &&& match path_parent(old(b).current_path@) {
                    Some(p) => r is Reload && final(b).current_path@ == p,
                    None => r is Nothing && final(b).current_path == old(b).current_path,
                }
            } else if c == KeyCode::Char(' ') {
                (r matches BrowserAction::Choose(p, q) && p@ == old(b).current_path@ && q
                    == old(b).purpose) && final(b).current_path == old(b).current_path
                    && final(b).selected == s
            } else {
                r is Nothing && final(b).current_path == old(b).current_path && final(b).selected == s
            }
        }),
{
    let c = key.code;
    if c == KeyCode::Esc {
        if b.purpose == FileBrowserPurpose::NewVaultOverridePath {
            BrowserAction::Close(BrowserExit::NewVaultDialog)
        } else {
            BrowserAction::Close(BrowserExit::Home)
        }
    } else if c == KeyCode::Char('j') || c == KeyCode::Down {
        b.move_down();
        BrowserAction::Nothing
    } else if c == KeyCode::Char('k') || c == KeyCode::Up {
        b.move_up();
        BrowserAction::Nothing
    } else if c == KeyCode::Enter {
        if b.enter_selected() {
            BrowserAction::Reload
        } else {
            BrowserAction::Nothing
        }
    } else if c == KeyCode::Char('h') || c == KeyCode::Left || c == KeyCode::Backspace {
        if b.go_up() {
            BrowserAction::Reload
        } else {
            BrowserAction::Nothing
        }
    } else if c == KeyCode::Char(' ') {
        BrowserAction::Choose(b.selected_path(), b.purpose)
    } else {
        BrowserAction::Nothing
    }
}

/// Handles the key press `key` while the name of a new folder is typed in
/// `b`. Enter ends the typing and hands back the path of the folder to create
/// in the current directory, unless the trimmed name is empty; Esc cancels;
/// Backspace removes the last character; a character is appended.
pub fn folder_key(b: &mut FileBrowserState, key: Key) -> (r: Option<String>)
    ensures
        final(b).purpose == old(b).purpose,
        final(b).entries == old(b).entries,
        final(b).selected == old(b).selected,
        final(b).current_path == old(b).current_path,
        key.code == KeyCode::Enter ==> {
            &&& final(b).new_folder_input is None
            &&& match old(b).new_folder_input {
                Some(n) => if trim_spec(n@).len() > 0 {
                    r matches Some(p) && p@ == join_spec(old(b).current_path@, trim_spec(n@))
                } else {
                    r is None
                },
                None => r is None,
            }
        },
        key.code == KeyCode::Esc ==> final(b).new_folder_input is None && r is None,
        key.code == KeyCode::Backspace ==> r is None && match old(b).new_folder_input {
            Some(n) => final(b).new_folder_input matches Some(m) && m@ == (if n@.len() > 0 {
                n@.drop_last()
            } else {
                n@
            }),
            None => final(b).new_folder_input is None,
        },
        key.code matches KeyCode::Char(c) ==> r is None && match old(b).new_folder_input {
            Some(n) => final(b).new_folder_input matches Some(m) && m@ == n@.push(c),
            None => final(b).new_folder_input is None,
        },
        !(key.code == KeyCode::Enter || key.code == KeyCode::Esc || key.code == KeyCode::Backspace
            || key.code is Char) ==> r is None && final(b).new_folder_input == old(b).new_folder_input,
{
    match key.code {
        KeyCode::Enter => match b.take_folder_name() {
            Some(name) => Some(join_path(b.current_path.as_str(), name.as_str())),
            None => None,
        },
        KeyCode::Esc => {
            b.cancel_create_folder();
            None
        },
        KeyCode::Backspace => {
            b.pop_char();
            None
        },
        KeyCode::Char(c) => {
            b.push_char(c);
            None
        },
        _ => None,
    }
}

} // verus!
