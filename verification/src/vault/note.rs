//! A note: a Markdown file and its text.
use vstd::prelude::*;
use vstd::string::*;

use crate::paths::{file_name_of, file_stem_of, opt_view, path_file_name, path_file_stem};

verus! {

pub struct Note {
    pub path: String,
    pub content: String,
    /// Whether the text has changes not yet written.
    pub dirty: bool,
}

/// The title of a new note at `path`: its file stem, or "Nueva nota".
pub open spec fn new_note_title(path: Seq<char>) -> Seq<char> {
    match path_file_stem(path) {
        Some(s) => s,
        None => "Nueva nota"@,
    }
}

/// The text of a new note: a level-one heading with its title, then a blank
/// line.
pub open spec fn new_note_content(path: Seq<char>) -> Seq<char> {
    "# "@ + new_note_title(path) + "\n\n"@
}

impl Note {
    /// The file name, or "untitled.md" when the path has none.
    pub fn name(&self) -> (r: &str)
        ensures
            r@ == (match path_file_name(self.path@) {
                Some(n) => n,
                None => "untitled.md"@,
            }),
    {
        match file_name_of(self.path.as_str()) {
            Some(n) => n,
            None => "untitled.md",
        }
    }

    /// The file name without extension, or "untitled" when there is none.
    pub fn stem(&self) -> (r: &str)
        ensures
            r@ == (match path_file_stem(self.path@) {
                Some(n) => n,
                None => "untitled"@,
            }),
    {
        match file_stem_of(self.path.as_str()) {
            Some(n) => n,
            None => "untitled",
        }
    }

    /// A new note at `path`, with a heading that carries its title; writing
    /// it to disk is up to the caller.
    pub fn new_at(path: &str) -> (r: Note)
        ensures
            r.path@ == path@,
            r.content@ == new_note_content(path@),
            !r.dirty,
    {
        let title = match file_stem_of(path) {
            Some(s) => s,
            None => "Nueva nota",
        };
        let content = String::from_str("# ").concat(title).concat("\n\n");
        Note { path: String::from_str(path), content, dirty: false }
    }
}


/// `name` as a note's file name: with `.md` appended unless it ends so.
pub open spec fn md_name(name: Seq<char>) -> Seq<char> {
    if crate::text::ends_with(name, ".md"@) {
        name
    } else {
        name + ".md"@
    }
}

/// `name` as a note's file name: with `.md` appended unless it ends so.
pub fn md_file_name(name: &str) -> (r: String)
    ensures
        r@ == md_name(name@),
{
    if crate::text::str_ends_with(name, ".md") {
        String::from_str(name)
    } else {
        String::from_str(name).concat(".md")
    }
}

impl Note {
    /// Takes the editor's lines as the note's text; the note becomes dirty
    /// when the text changed.
    pub fn sync(&mut self, lines: &Vec<String>)
        ensures
            final(self).content@ == crate::text::join_lines_spec(crate::text::views(lines@)),
            final(self).dirty == (old(self).dirty || old(self).content@ != final(self).content@),
            final(self).path == old(self).path,
    {
        let c = crate::text::join_lines(lines);
        if !crate::text::str_eq(c.as_str(), self.content.as_str()) {
            self.content = c;
            self.dirty = true;
        }
    }

    /// Where the note goes when renamed to `new_name` (`.md` added unless
    /// there): beside it, or in `.` when its path has no parent; none for an
    /// empty name.
    pub fn renamed_path(&self, new_name: &str) -> (r: Option<String>)
        ensures
            new_name@.len() == 0 ==> r is None,
            new_name@.len() > 0 ==> (r matches Some(p) && p@ == crate::paths::join_spec(
                match crate::paths::path_parent(self.path@) {
                    Some(d) => d,
                    None => "."@,
                },
                md_name(new_name@),
            )),
    {
        if new_name.unicode_len() == 0 {
            return None;
        }
        let f = md_file_name(new_name);
        let dir = match crate::paths::parent_of(self.path.as_str()) {
            Some(d) => d,
            None => ".",
        };
        Some(crate::paths::join_path(dir, f.as_str()))
    }
}

} // verus!
