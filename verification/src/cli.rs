//! What the command line and the `:ext` commands compute: which extensions a
//! command acts on, how they are listed, and the quick note.
use vstd::prelude::*;
use vstd::string::*;

use crate::editor::{decimal, push_decimal};
use crate::extensions::manifest::Manifest;
use crate::extensions::{global_extensions_dir_spec, vault_extensions_dir_spec, ExtRuntime, ExtensionManager};
use crate::paths::{join_path, join_spec};
use crate::text::string_push;
use crate::ui::styled::push_str;

verus! {

/// The extensions a command acts on: those of the vault `vault` when one is
/// given, else the global ones.
pub fn resolve_manager<R: ExtRuntime>(vault: &Option<String>) -> (r: ExtensionManager<R>)
    ensures
        r.extensions@.len() == 0,
        match *vault {
            Some(v) => r.extensions_dir_spec() == vault_extensions_dir_spec(v@) && (r.vault_root_spec() matches Some(x) && x@ == v@),
            None => (exists|base: Seq<char>| r.extensions_dir_spec() == global_extensions_dir_spec(base)) && r.vault_root_spec() is None,
        },
{
    match vault {
        Some(v) => ExtensionManager::new_for_vault(v.as_str()),
        None => ExtensionManager::new(),
    }
}

/// A quick note: the file `<seconds>.md` in the vault, holding a heading and
/// the message.
pub open spec fn quick_note_spec(vault: Seq<char>, secs: u64, message: Seq<char>) -> (Seq<char>, Seq<char>) {
    (
        join_spec(vault, decimal(secs as nat) + ".md"@),
        "# Nota rápida\n\n"@ + message + seq!['\n'],
    )
}

/// The path and text of a quick note with `message`, written at `secs`
/// seconds since the epoch into the vault `vault`.
pub fn quick_note(vault: &str, secs: u64, message: &str) -> (r: (String, String))
    ensures
        (r.0@, r.1@) == quick_note_spec(vault@, secs, message@),
{
    let mut name = String::new();
    push_decimal(&mut name, secs);
    push_str(&mut name, ".md");
    assert(name@ =~= decimal(secs as nat) + ".md"@);
    let path = join_path(vault, name.as_str());
    let mut text = String::from_str("# Nota rápida\n\n");
    push_str(&mut text, message);
    string_push(&mut text, '\n');
    (path, text)
}

/// How `mmc ext list` shows an extension: its name, version, state and
/// description.
pub open spec fn ext_line_spec(m: Manifest) -> Seq<char> {
    "  "@ + m.name@ + " v"@ + m.version@ + " ["@ + (if m.enabled {
        "activa"@
    } else {
        "inactiva"@
    }) + "] — "@ + m.description@
}

/// How `mmc ext list` shows the extension of manifest `m`.
pub fn ext_line(m: &Manifest) -> (r: String)
    ensures
        r@ == ext_line_spec(*m),
{
    let mut s = String::from_str("  ");
    push_str(&mut s, m.name.as_str());
    push_str(&mut s, " v");
    push_str(&mut s, m.version.as_str());
    push_str(&mut s, " [");
    push_str(&mut s, if m.enabled {
        "activa"
    } else {
        "inactiva"
    });
    push_str(&mut s, "] — ");
    push_str(&mut s, m.description.as_str());
    s
}

/// How `:ext list` shows an extension: its name and `(on)` or `(off)`.
pub open spec fn ext_brief_spec(m: Manifest) -> Seq<char> {
    m.name@ + (if m.enabled {
        "(on)"@
    } else {
        "(off)"@
    })
}

/// How `:ext list` shows the extension of manifest `m`.
pub fn ext_brief(m: &Manifest) -> (r: String)
    ensures
        r@ == ext_brief_spec(*m),
{
    let mut s = m.name.clone();
    push_str(&mut s, if m.enabled {
        "(on)"
    } else {
        "(off)"
    });
    s
}

} // verus!
