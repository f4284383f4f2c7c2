//! A vault: a directory of Markdown notes shown as a tree.
pub mod links;
pub mod note;
pub mod tree;

use vstd::prelude::*;

pub use note::Note;
pub use tree::FileTree;
use tree::{WalkEntry, tree_entries};

verus! {

/// An open vault: its root directory and the tree of its notes.
pub struct Vault {
    pub root: String,
    pub tree: FileTree,
}

impl Vault {
    /// Rebuilds the tree from a fresh walk of the vault, keeping the
    /// collapsed folders and, as far as it still exists, the selection.
    pub fn refresh(&mut self, walked: Vec<WalkEntry>)
        ensures
            final(self).root == old(self).root,
            final(self).tree.entries@ == tree_entries(walked@),
            final(self).tree.vault_root == old(self).tree.vault_root,
            final(self).tree.collapsed == old(self).tree.collapsed,
            final(self).tree.selected == tree::clamp_selection(
                old(self).tree.selected as int,
                tree_entries(walked@).len() as int,
            ),
    {
        self.tree.refresh(walked);
    }
}


impl Vault {
    /// The directory where new notes and folders go: the selected folder,
    /// or the folder of the selected note (the root when it has none), or
    /// with nothing selected the root.
    pub open spec fn target_dir_spec(&self) -> Seq<char> {
        if self.tree.selected < self.tree.entries@.len() {
            let e = self.tree.entries@[self.tree.selected as int];
            if e.is_dir {
                e.path@
            } else {
                match crate::paths::path_parent(e.path@) {
                    Some(d) => d,
                    None => self.root@,
                }
            }
        } else {
            self.root@
        }
    }

    /// The directory where new notes and folders go.
    pub fn target_dir(&self) -> (r: String)
        ensures
            r@ == self.target_dir_spec(),
    {
        if self.tree.selected < self.tree.entries.len() {
            let e = &self.tree.entries[self.tree.selected];
            if e.is_dir {
                e.path.clone()
            } else {
                match crate::paths::parent_of(e.path.as_str()) {
                    Some(d) => String::from_str(d),
                    None => self.root.clone(),
                }
            }
        } else {
            self.root.clone()
        }
    }

    /// The path of a new note called `name` (`.md` added unless there).
    pub fn new_note_path(&self, name: &str) -> (r: String)
        ensures
            r@ == crate::paths::join_spec(self.target_dir_spec(), note::md_name(name@)),
    {
        let d = self.target_dir();
        let f = note::md_file_name(name);
        crate::paths::join_path(d.as_str(), f.as_str())
    }

    /// The path of a new folder called `name`.
    pub fn new_dir_path(&self, name: &str) -> (r: String)
        ensures
            r@ == crate::paths::join_spec(self.target_dir_spec(), name@),
    {
        let d = self.target_dir();
        crate::paths::join_path(d.as_str(), name)
    }
}

} // verus!
