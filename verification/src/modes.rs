use vstd::prelude::*;

verus! {

/// The interaction mode of the application.
#[derive(Debug, Clone, Copy, PartialEq, Eq, Structural)]
pub enum AppMode {
    /// First launch: the user picks the default directory for vaults.
    FirstTimeSetup,
    Home,
    FileBrowser,
    /// Dialog that asks for the name of a new vault.
    NewVaultDialog,
    Normal,
    Insert,
    Command,
    /// Settings window (extensions and themes).
    Settings,
}

/// The tab shown inside the settings window.
#[derive(Debug, Clone, Copy, PartialEq, Eq, Structural)]
pub enum SettingsTab {
    Extensions,
    Themes,
}

/// How the note area is laid out.
#[derive(Debug, Clone, Copy, PartialEq, Eq, Structural)]
pub enum ViewMode {
    Editor,
    Split,
    Preview,
}

/// The view that follows `m` in the cycle Editor → Split → Preview → Editor.
pub open spec fn spec_next_view(m: ViewMode) -> ViewMode {
    match m {
        ViewMode::Editor => ViewMode::Split,
        ViewMode::Split => ViewMode::Preview,
        ViewMode::Preview => ViewMode::Editor,
    }
}

/// The status-bar label of a view.
pub open spec fn spec_view_label(m: ViewMode) -> Seq<char> {
    match m {
        ViewMode::Editor => "EDITOR"@,
        ViewMode::Split => "SPLIT"@,
        ViewMode::Preview => "PREVIEW"@,
    }
}

/// The status-bar label of a mode.
pub open spec fn spec_mode_label(m: AppMode) -> Seq<char> {
    match m {
        AppMode::FirstTimeSetup => "SETUP"@,
        AppMode::Home => "HOME"@,
        AppMode::FileBrowser => "BROWSER"@,
        AppMode::NewVaultDialog => "NUEVA VAULT"@,
        AppMode::Normal => "NORMAL"@,
        AppMode::Insert => "INSERT"@,
        AppMode::Command => "COMMAND"@,
        AppMode::Settings => "SETTINGS"@,
    }
}

impl Default for ViewMode {
    fn default() -> (r: Self)
        ensures
            r == ViewMode::Editor,
    {
        ViewMode::Editor
    }
}

impl ViewMode {
    /// The next view in the cycle Editor → Split → Preview → Editor.
    pub fn next(&self) -> (r: Self)
        ensures
            r == spec_next_view(*self),
    {
        match self {
            ViewMode::Editor => ViewMode::Split,
            ViewMode::Split => ViewMode::Preview,
            ViewMode::Preview => ViewMode::Editor,
        }
    }

    /// The label shown in the status bar.
    pub fn label(&self) -> (r: &'static str)
        ensures
            r@ == spec_view_label(*self),
    {
        match self {
            ViewMode::Editor => "EDITOR",
            ViewMode::Split => "SPLIT",
            ViewMode::Preview => "PREVIEW",
        }
    }
}

impl AppMode {
    /// The label shown in the status bar.
    pub fn label(&self) -> (r: &'static str)
        ensures
            r@ == spec_mode_label(*self),
    {
        match self {
            AppMode::FirstTimeSetup => "SETUP",
            AppMode::Home => "HOME",
            AppMode::FileBrowser => "BROWSER",
            AppMode::NewVaultDialog => "NUEVA VAULT",
            AppMode::Normal => "NORMAL",
            AppMode::Insert => "INSERT",
            AppMode::Command => "COMMAND",
            AppMode::Settings => "SETTINGS",
        }
    }
}

/// Cycling the view three times comes back to the view one started from,
/// and every view differs from the one that follows it.
pub proof fn lemma_view_cycle(m: ViewMode)
    ensures
        spec_next_view(spec_next_view(spec_next_view(m))) == m,
        spec_next_view(m) != m,
{
}

} // verus!
