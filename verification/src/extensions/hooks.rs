//! Events that extensions may react to.
use vstd::prelude::*;

verus! {

/// Something that happened in the editor, with its data.
pub enum HookEvent {
    NoteSave { path: String, content: String },
    NoteOpen { path: String, content: String },
    ModeChange { from: String, to: String },
    MarkdownBlock { lang: String, code: String },
    VaultOpen { path: String },
}

/// What an extension answered to an event.
pub enum HookResult {
    Empty,
    Text(String),
}

/// The name of the handler an event is delivered to.
pub open spec fn hook_name_spec(e: HookEvent) -> Seq<char> {
    match e {
        HookEvent::NoteSave { .. } => "on_save"@,
        HookEvent::NoteOpen { .. } => "on_open"@,
        HookEvent::ModeChange { .. } => "on_mode_change"@,
        HookEvent::MarkdownBlock { .. } => "on_markdown_block"@,
        HookEvent::VaultOpen { .. } => "on_vault_open"@,
    }
}

/// The permission an extension needs to receive an event.
pub open spec fn hook_permission_spec(e: HookEvent) -> Seq<char> {
    match e {
        HookEvent::NoteSave { .. } => "hooks.save"@,
        HookEvent::NoteOpen { .. } => "hooks.open"@,
        HookEvent::ModeChange { .. } => "hooks.mode"@,
        HookEvent::MarkdownBlock { .. } => "markdown"@,
        HookEvent::VaultOpen { .. } => "hooks.vault"@,
    }
}

impl HookEvent {
    /// The name of the handler this event is delivered to.
    pub fn name(&self) -> (r: &'static str)
        ensures
            r@ == hook_name_spec(*self),
    {
        match self {
            HookEvent::NoteSave { .. } => "on_save",
            HookEvent::NoteOpen { .. } => "on_open",
            HookEvent::ModeChange { .. } => "on_mode_change",
            HookEvent::MarkdownBlock { .. } => "on_markdown_block",
            HookEvent::VaultOpen { .. } => "on_vault_open",
        }
    }

    /// The permission required for this event to be delivered.
    pub fn required_permission(&self) -> (r: &'static str)
        ensures
            r@ == hook_permission_spec(*self),
    {
        match self {
            HookEvent::NoteSave { .. } => "hooks.save",
            HookEvent::NoteOpen { .. } => "hooks.open",
            HookEvent::ModeChange { .. } => "hooks.mode",
            HookEvent::MarkdownBlock { .. } => "markdown",
            HookEvent::VaultOpen { .. } => "hooks.vault",
        }
    }
}

} // verus!
