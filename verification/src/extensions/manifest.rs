//! The manifest that describes an extension.
use vstd::prelude::*;
use vstd::string::*;

use crate::text::views;

verus! {

/// The language an extension is written in.
#[derive(Debug, Clone, Copy, PartialEq, Eq, Structural)]
pub enum Language {
    Lua,
    Rhai,
}

/// An extension's `manifest.toml`.
pub struct Manifest {
    pub name: String,
    pub version: String,
    pub author: String,
    pub description: String,
    pub language: Language,
    pub enabled: bool,
    pub permissions: Vec<String>,
}

/// Whether the manifest grants permission `perm`.
pub open spec fn grants(m: Manifest, perm: Seq<char>) -> bool {
    views(m.permissions@).contains(perm)
}

/// Whether the manifest asks for a permission that warrants an extra
/// warning: writing files or running processes.
pub open spec fn dangerous(m: Manifest) -> bool {
    grants(m, "fs.write"@) || grants(m, "process.run"@)
}

impl Manifest {
    /// Whether the manifest grants permission `perm`.
    pub fn has_permission(&self, perm: &str) -> (r: bool)
        ensures
            r == grants(*self, perm@),
    {
        let p = String::from_str(perm);
        let mut i: usize = 0;
        while i < self.permissions.len()
            invariant
                i <= self.permissions@.len(),
                p@ == perm@,
                forall|j: int| 0 <= j < i ==> self.permissions@[j]@ != perm@,
            decreases self.permissions@.len() - i,
        {
            if self.permissions[i] == p {
                assert(views(self.permissions@)[i as int] == perm@);
                return true;
            }
            i = i + 1;
        }
        assert(!views(self.permissions@).contains(perm@)) by {
            if views(self.permissions@).contains(perm@) {
                let j = choose|j: int|
                    0 <= j < views(self.permissions@).len() && views(self.permissions@)[j] == perm@;
                assert(self.permissions@[j]@ == perm@);
            }
        }
        false
    }

    /// Whether the extension asks to write files or run processes.
    pub fn has_dangerous_permissions(&self) -> (r: bool)
        ensures
            r == dangerous(*self),
    {
        self.has_permission("fs.write") || self.has_permission("process.run")
    }
}

} // verus!
