//! The dialog that asks for the name of a new vault.
use vstd::prelude::*;

use crate::config::theme::{parse_color_spec, Theme};
use crate::keys::{Key, KeyCode};
use crate::ui::styled::{fg_style, push_str, span_view, spanv, Span, SpanV, Style};
use crate::paths::{join_path, join_spec};
use vstd::string::*;

use crate::text::{string_pop, string_push, trim_spec};

verus! {

pub struct NewVaultDialog {
    pub name: String,
    /// A directory chosen for this vault only, in place of the default one.
    pub override_path: Option<String>,
}

impl Default for NewVaultDialog {
    fn default() -> (r: Self)
        ensures
            r.name@.len() == 0,
            r.override_path is None,
    {
        NewVaultDialog { name: String::new(), override_path: None }
    }
}

/// The directory of the new vault: its name under the chosen directory, or
/// under `default_dir` when none was chosen.
pub open spec fn resolved_spec(d: NewVaultDialog, default_dir: Seq<char>) -> Seq<char> {
    let base = match d.override_path {
        Some(p) => p@,
        None => default_dir,
    };
    join_spec(base, d.name@)
}

/// The characters a vault's name may not hold: `/ \ : * ? " < > |`.
pub open spec fn forbidden_in_name(c: char) -> bool {
    c == '/' || c == '\\' || c == ':' || c == '*' || c == '?' || c == '"' || c == '<' || c == '>'
        || c == '|'
}

impl NewVaultDialog {
    /// The directory of the new vault.
    pub fn resolved_path(&self, default_dir: &str) -> (r: String)
        ensures
            r@ == resolved_spec(*self, default_dir@),
    {
        match &self.override_path {
            Some(p) => join_path(p.as_str(), self.name.as_str()),
            None => join_path(default_dir, self.name.as_str()),
        }
    }
}

impl NewVaultDialog {
    /// The name as the dialog shows it: followed by `_` while empty, by
    /// `▌` once typed.
    pub fn name_text(&self) -> (r: String)
        ensures
            r@ == self.name@ + (if self.name@.len() == 0 {
                "_"@
            } else {
                "▌"@
            }),
    {
        let mut s = self.name.clone();
        push_str(&mut s, if self.name.as_str().unicode_len() == 0 {
            "_"
        } else {
            "▌"
        });
        s
    }

    /// The title over the path: in the link color when the directory was
    /// chosen for this vault, else in the inactive color.
    pub fn path_label(&self, theme: &Theme) -> (r: Span)
        ensures
            span_view(r) == (if self.override_path is Some {
                spanv(" Ruta (personalizada) "@, fg_style(parse_color_spec(theme.link@)))
            } else {
                spanv(" Se creará en "@, fg_style(parse_color_spec(theme.tab_inactive@)))
            }),
    {
        if self.override_path.is_some() {
            Span { text: String::from_str(" Ruta (personalizada) "), style: Style::fg(Theme::parse_color(theme.link.as_str())) }
        } else {
            Span { text: String::from_str(" Se creará en "), style: Style::fg(Theme::parse_color(theme.tab_inactive.as_str())) }
        }
    }
}

/// What the application is to do after a key press in the dialog.
pub enum DialogAction {
    Nothing,
    /// Esc: close the dialog and go back home.
    Close,
    /// Tab: choose, in a file browser, the directory for this vault only.
    ChooseDirectory,
    /// Enter with a name: create and open the vault at this path.
    Create(String),
}

/// Handles the key press `key` in the dialog `d`; `default_dir` is the
/// default directory for new vaults (empty when none was chosen).
pub fn dialog_key(d: &mut NewVaultDialog, default_dir: &str, key: Key) -> (r: DialogAction)
    ensures
        final(d).override_path == old(d).override_path,
        key.code == KeyCode::Esc ==> r is Close && final(d).name@ == old(d).name@,
        key.code == KeyCode::Tab ==> r is ChooseDirectory && final(d).name@ == old(d).name@,
        key.code == KeyCode::Enter ==> final(d).name@ == old(d).name@ && (if trim_spec(old(d).name@).len()
            == 0 {
            r is Nothing
        } else {
            r matches DialogAction::Create(p) && p@ == resolved_spec(*old(d), default_dir@)
        }),
        key.code == KeyCode::Backspace ==> r is Nothing && final(d).name@ == (if old(d).name@.len()
            > 0 {
            old(d).name@.drop_last()
        } else {
            old(d).name@
        }),
        key.code matches KeyCode::Char(c) ==> r is Nothing && final(d).name@ == (if forbidden_in_name(
            c,
        ) {
            old(d).name@
        } else {
            old(d).name@.push(c)
        }),
        !(key.code == KeyCode::Esc || key.code == KeyCode::Tab || key.code == KeyCode::Enter
            || key.code == KeyCode::Backspace || key.code is Char) ==> r is Nothing && final(d).name@
            == old(d).name@,
{
    match key.code {
        KeyCode::Esc => DialogAction::Close,
        KeyCode::Tab => DialogAction::ChooseDirectory,
        KeyCode::Enter => {
            let t = crate::text::trim(d.name.as_str());
            if t.as_str().unicode_len() == 0 {
                DialogAction::Nothing
            } else {
                DialogAction::Create(d.resolved_path(default_dir))
            }
        },
        KeyCode::Backspace => {
            let _ = string_pop(&mut d.name);
            DialogAction::Nothing
        },
        KeyCode::Char(c) => {
            if !(c == '/' || c == '\\' || c == ':' || c == '*' || c == '?' || c == '"' || c == '<'
                || c == '>' || c == '|') {
                string_push(&mut d.name, c);
            }
            DialogAction::Nothing
        },
        _ => DialogAction::Nothing,
    }
}

} // verus!
