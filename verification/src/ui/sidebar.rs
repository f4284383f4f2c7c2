//! The sidebar: the vault's tree, one row per visible entry, folders with a
//! fold marker.
use vstd::prelude::*;

use crate::config::theme::{parse_color_spec, Theme};
use crate::text::{str_eq, string_push, views};
use crate::ui::styled::{bold, fg_style, push_repeat, push_str, repeat, Style};
use vstd::string::*;
use crate::vault::tree::{visible_spec, FileEntry, FileTree};

verus! {

/// The sidebar of `tree`, scrolled down `scroll_offset` rows.
pub struct Sidebar<'a> {
    pub tree: &'a FileTree,
    pub theme: &'a Theme,
    pub scroll_offset: usize,
}

/// The marker before an entry's name: `▸ ` for a folded folder, `▾ ` for an
/// open one, two spaces for a note.
pub open spec fn fold_marker(e: FileEntry, collapsed: Seq<Seq<char>>) -> Seq<char> {
    if e.is_dir {
        if collapsed.contains(e.path@) {
            seq!['▸', ' ']
        } else {
            seq!['▾', ' ']
        }
    } else {
        seq![' ', ' ']
    }
}

/// The text of an entry's row: two spaces per level of depth, the marker,
/// the name, then spaces up to `width` characters.
pub open spec fn row_text(e: FileEntry, collapsed: Seq<Seq<char>>, width: nat) -> Seq<char> {
    let label = repeat(' ', 2 * e.depth as nat) + fold_marker(e, collapsed) + e.name@;
    if label.len() < width {
        label + repeat(' ', (width - label.len()) as nat)
    } else {
        label
    }
}

impl<'a> Sidebar<'a> {
    /// The entries shown in a sidebar `height` rows high: the visible ones
    /// from the scroll offset on.
    pub fn shown(&self, height: usize) -> (r: Vec<usize>)
        ensures
            ({
                let v = visible_spec(*self.tree);
                let start = if self.scroll_offset < v.len() {
                    self.scroll_offset as int
                } else {
                    v.len() as int
                };
                let end = if v.len() - start > height {
                    start + height
                } else {
                    v.len() as int
                };
                r@ == v.subrange(start, end)
            }),
    {
        let vis = self.tree.visible_indices();
        let start = if self.scroll_offset < vis.len() {
            self.scroll_offset
        } else {
            vis.len()
        };
        let end = if vis.len() - start > height {
            start + height
        } else {
            vis.len()
        };
        let mut out: Vec<usize> = Vec::new();
        let mut i = start;
        while i < end
            invariant
                start <= i <= end <= vis@.len(),
                out@ == vis@.subrange(start as int, i as int),
            decreases end - i,
        {
            out.push(vis[i]);
            assert(vis@.subrange(start as int, i + 1) =~= vis@.subrange(start as int, i as int).push(vis@[i as int]));
            i = i + 1;
        }
        out
    }

    /// The text of the row of entry `e`, `width` characters wide at least.
    pub fn row_text(&self, e: &FileEntry, width: usize) -> (r: String)
        ensures
            r@ == row_text(*e, views(self.tree.collapsed@), width as nat),
    {
        let mut s = String::new();
        push_repeat(&mut s, ' ', 2 * (e.depth as u128));
        if e.is_dir {
            let mut folded = false;
            let mut i: usize = 0;
            while i < self.tree.collapsed.len()
                invariant
                    i <= self.tree.collapsed@.len(),
                    folded == views(self.tree.collapsed@).take(i as int).contains(e.path@),
                decreases self.tree.collapsed.len() - i,
            {
                let ghost cv = views(self.tree.collapsed@);
                assert(cv.take(i + 1) =~= cv.take(i as int).push(cv[i as int]));
                if str_eq(self.tree.collapsed[i].as_str(), e.path.as_str()) {
                    folded = true;
                }
                proof {
                    let a = cv.take(i as int);
                    let b = cv.take(i + 1);
                    if b.contains(e.path@) && !a.contains(e.path@) {
                        let k = choose|k: int| 0 <= k < b.len() && #[trigger] b[k] == e.path@;
                        if k < i {
                            assert(a[k] == b[k]);
                        }
                        assert(k == i);
                    }
                    if a.contains(e.path@) {
                        let k = choose|k: int| 0 <= k < a.len() && #[trigger] a[k] == e.path@;
                        assert(b[k] == e.path@);
                    }
                    if b[i as int] == e.path@ {
                        assert(b.contains(e.path@));
                    }
                }
                i = i + 1;
            }
            assert(views(self.tree.collapsed@).take(self.tree.collapsed@.len() as int) =~= views(self.tree.collapsed@));
            string_push(&mut s, if folded { '▸' } else { '▾' });
            string_push(&mut s, ' ');
        } else {
            string_push(&mut s, ' ');
            string_push(&mut s, ' ');
        }
        push_str(&mut s, e.name.as_str());
        let ghost label = repeat(' ', 2 * e.depth as nat) + fold_marker(*e, views(self.tree.collapsed@)) + e.name@;
        assert(s@ =~= label);
        let n = s.as_str().unicode_len();
        if n < width {
            push_repeat(&mut s, ' ', (width - n) as u128);
        }
        s
    }
}

/// The style of the row of entry `idx`: bold accent when selected, the text
/// color for a folder, the link color for a note, all on the sidebar's
/// background.
pub open spec fn row_style_spec(tree: FileTree, t: Theme, idx: int) -> Style {
    let bg = Some(parse_color_spec(t.sidebar_bg@));
    if idx == tree.selected {
        bold(Style { bg, ..fg_style(parse_color_spec(t.accent@)) })
    } else if 0 <= idx < tree.entries@.len() && tree.entries@[idx].is_dir {
        Style { bg, ..fg_style(parse_color_spec(t.fg@)) }
    } else {
        Style { bg, ..fg_style(parse_color_spec(t.link@)) }
    }
}

impl<'a> Sidebar<'a> {
    /// The style of the row of entry `idx`.
    pub fn row_style(&self, idx: usize) -> (r: Style)
        ensures
            r == row_style_spec(*self.tree, *self.theme, idx as int),
    {
        let bg = Theme::parse_color(self.theme.sidebar_bg.as_str());
        if idx == self.tree.selected {
            Style::fg(Theme::parse_color(self.theme.accent.as_str())).on(bg).bold()
        } else if idx < self.tree.entries.len() && self.tree.entries[idx].is_dir {
            Style::fg(Theme::parse_color(self.theme.fg.as_str())).on(bg)
        } else {
            Style::fg(Theme::parse_color(self.theme.link.as_str())).on(bg)
        }
    }
}

} // verus!
