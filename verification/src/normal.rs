//! Normal mode: what each key press does, and how the sidebar and the
//! preview scroll.
use vstd::prelude::*;

use crate::keys::{ctrl_only, ctrl_shift, no_mods, shift_only, Key, KeyCode};
use crate::modes::ViewMode;

verus! {

/// What the command line starts with when a key opens it.
#[derive(Clone, Copy, Debug, PartialEq, Eq, Structural)]
pub enum Prefill {
    /// `:` opens an empty command line.
    Empty,
    /// `r` starts `:rename `.
    Rename,
    /// `D` or Ctrl+D starts `:delete`.
    Delete,
}

/// The text of a prefill.
pub open spec fn prefill_spec(p: Prefill) -> Seq<char> {
    match p {
        Prefill::Empty => ""@,
        Prefill::Rename => "rename "@,
        Prefill::Delete => "delete"@,
    }
}

impl Prefill {
    /// The text the command line starts with.
    pub fn text(&self) -> (r: &'static str)
        ensures
            r@ == prefill_spec(*self),
    {
        match self {
            Prefill::Empty => "",
            Prefill::Rename => "rename ",
            Prefill::Delete => "delete",
        }
    }
}

/// What a key press does in Normal mode.
#[derive(Clone, Copy, Debug, PartialEq, Eq, Structural)]
pub enum NormalAction {
    Nothing,
    /// Ctrl+T: the settings, on their Extensions tab.
    OpenSettings,
    /// Ctrl+V: the next view, remembered in the configuration.
    CycleView,
    /// `e`, or `i` outside the Preview view: Insert mode.
    EnterInsert,
    /// `:`, `r`, `D`, Ctrl+D: the command line, with this text in it.
    EnterCommand(Prefill),
    /// Tab.
    NextTab,
    /// Shift+BackTab.
    PrevTab,
    /// `j` or Down: the next entry of the sidebar.
    SelectDown,
    /// `k` or Up: the previous entry of the sidebar.
    SelectUp,
    /// `d` (down) or `u` (up), in the Split and Preview views: scroll the
    /// preview.
    ScrollPreview(bool),
    /// Enter: open the selected note, or fold or unfold the selected folder.
    Activate,
    /// `g`: follow the wikilink under the cursor.
    FollowLink,
    /// Ctrl+W.
    CloseTab,
    /// Ctrl+S.
    Save,
    /// Ctrl+C or Ctrl+Shift+C: copy the whole note.
    CopyNote,
    /// Ctrl+H: the home screen.
    GoHome,
}

/// The preview is on screen.
pub open spec fn shows_preview(v: ViewMode) -> bool {
    v == ViewMode::Preview || v == ViewMode::Split
}

/// What the key press `key` does in Normal mode, in the view `view`.
pub open spec fn normal_action_spec(key: Key, view: ViewMode) -> NormalAction {
    let (m, c) = (key.mods, key.code);
    if ctrl_only(m) && c == KeyCode::Char('t') {
        NormalAction::OpenSettings
    } else if ctrl_only(m) && c == KeyCode::Char('v') {
        NormalAction::CycleView
    } else if no_mods(m) && c == KeyCode::Char('i') {
        if view != ViewMode::Preview {
            NormalAction::EnterInsert
        } else {
            NormalAction::Nothing
        }
    } else if no_mods(m) && c == KeyCode::Char('e') {
        NormalAction::EnterInsert
    } else if no_mods(m) && c == KeyCode::Char(':') {
        NormalAction::EnterCommand(Prefill::Empty)
    } else if no_mods(m) && c == KeyCode::Tab {
        NormalAction::NextTab
    } else if shift_only(m) && c == KeyCode::BackTab {
        NormalAction::PrevTab
    } else if no_mods(m) && (c == KeyCode::Char('j') || c == KeyCode::Down) {
        NormalAction::SelectDown
    } else if no_mods(m) && (c == KeyCode::Char('k') || c == KeyCode::Up) {
        NormalAction::SelectUp
    } else if no_mods(m) && (c == KeyCode::Char('d') || c == KeyCode::Char('u')) {
        if shows_preview(view) {
            NormalAction::ScrollPreview(c == KeyCode::Char('d'))
        } else {
            NormalAction::Nothing
        }
    } else if no_mods(m) && c == KeyCode::Enter {
        NormalAction::Activate
    } else if no_mods(m) && c == KeyCode::Char('g') {
        NormalAction::FollowLink
    } else if no_mods(m) && c == KeyCode::Char('r') {
        NormalAction::EnterCommand(Prefill::Rename)
    } else if ((shift_only(m) || no_mods(m)) && c == KeyCode::Char('D')) || (ctrl_only(m) && c
        == KeyCode::Char('d')) {
        NormalAction::EnterCommand(Prefill::Delete)
    } else if ctrl_only(m) && c == KeyCode::Char('w') {
        NormalAction::CloseTab
    } else if ctrl_only(m) && c == KeyCode::Char('s') {
        NormalAction::Save
    } else if (ctrl_only(m) && c == KeyCode::Char('c')) || (ctrl_shift(m) && c == KeyCode::Char(
        'C',
    )) {
        NormalAction::CopyNote
    } else if ctrl_only(m) && c == KeyCode::Char('h') {
        NormalAction::GoHome
    } else {
        NormalAction::Nothing
    }
}

/// What the key press `key` does in Normal mode, in the view `view`.
pub fn normal_action(key: Key, view: ViewMode) -> (r: NormalAction)
    ensures
        r == normal_action_spec(key, view),
{
    let m = key.mods;
    let c = key.code;
    if m.is_ctrl() && c == KeyCode::Char('t') {
        NormalAction::OpenSettings
    } else if m.is_ctrl() && c == KeyCode::Char('v') {
        NormalAction::CycleView
    } else if m.is_none() && c == KeyCode::Char('i') {
        if view != ViewMode::Preview {
            NormalAction::EnterInsert
        } else {
            NormalAction::Nothing
        }
    } else if m.is_none() && c == KeyCode::Char('e') {
        NormalAction::EnterInsert
    } else if m.is_none() && c == KeyCode::Char(':') {
        NormalAction::EnterCommand(Prefill::Empty)
    } else if m.is_none() && c == KeyCode::Tab {
        NormalAction::NextTab
    } else if m.is_shift() && c == KeyCode::BackTab {
        NormalAction::PrevTab
    } else if m.is_none() && (c == KeyCode::Char('j') || c == KeyCode::Down) {
        NormalAction::SelectDown
    } else if m.is_none() && (c == KeyCode::Char('k') || c == KeyCode::Up) {
        NormalAction::SelectUp
    } else if m.is_none() && (c == KeyCode::Char('d') || c == KeyCode::Char('u')) {
        if view == ViewMode::Preview || view == ViewMode::Split {
            NormalAction::ScrollPreview(c == KeyCode::Char('d'))
        } else {
            NormalAction::Nothing
        }
    } else if m.is_none() && c == KeyCode::Enter {
        NormalAction::Activate
    } else if m.is_none() && c == KeyCode::Char('g') {
        NormalAction::FollowLink
    } else if m.is_none() && c == KeyCode::Char('r') {
        NormalAction::EnterCommand(Prefill::Rename)
    } else if ((m.is_shift() || m.is_none()) && c == KeyCode::Char('D')) || (m.is_ctrl() && c
        == KeyCode::Char('d')) {
        NormalAction::EnterCommand(Prefill::Delete)
    } else if m.is_ctrl() && c == KeyCode::Char('w') {
        NormalAction::CloseTab
    } else if m.is_ctrl() && c == KeyCode::Char('s') {
        NormalAction::Save
    } else if (m.is_ctrl() && c == KeyCode::Char('c')) || (m.is_ctrl_shift() && c == KeyCode::Char(
        'C',
    )) {
        NormalAction::CopyNote
    } else if m.is_ctrl() && c == KeyCode::Char('h') {
        NormalAction::GoHome
    } else {
        NormalAction::Nothing
    }
}

/// How many rows of the sidebar the selection is kept within.
pub const SIDEBAR_ROWS: usize = 20;

/// The sidebar's scroll offset once the selection is brought into view: it
/// moves up to a selection above it, or down just far enough for a
/// selection below the visible rows.
pub open spec fn sidebar_scroll_spec(selected: int, scroll: int) -> int {
    if selected < scroll {
        selected
    } else if selected >= scroll + SIDEBAR_ROWS {
        selected - (SIDEBAR_ROWS - 1)
    } else {
        scroll
    }
}

/// The sidebar's scroll offset that keeps the entry `selected` in view,
/// starting from the offset `scroll`.
pub fn sidebar_scroll(selected: usize, scroll: usize) -> (r: usize)
    ensures
        r == sidebar_scroll_spec(selected as int, scroll as int),
{
    if selected < scroll {
        selected
    } else if selected - scroll >= SIDEBAR_ROWS {
        selected - (SIDEBAR_ROWS - 1)
    } else {
        scroll
    }
}

/// Once scrolled, the selected entry is among the visible rows.
pub proof fn lemma_selection_visible(selected: int, scroll: int)
    requires
        0 <= selected,
        0 <= scroll,
    ensures
        sidebar_scroll_spec(selected, scroll) <= selected < sidebar_scroll_spec(selected, scroll)
            + SIDEBAR_ROWS,
        0 <= sidebar_scroll_spec(selected, scroll),
{
}

/// How many rows `d` and `u` scroll the preview.
pub const PREVIEW_STEP: u16 = 5;

/// The preview's scroll offset after one step down (`down`) or up, stopping
/// at the ends of the `u16` range.
pub fn scroll_preview(scroll: u16, down: bool) -> (r: u16)
    ensures
        down ==> r == (if scroll + PREVIEW_STEP <= u16::MAX {
            scroll + PREVIEW_STEP
        } else {
            u16::MAX as int
        }),
        !down ==> r == (if scroll >= PREVIEW_STEP {
            scroll - PREVIEW_STEP
        } else {
            0
        }),
{
    if down {
        scroll.saturating_add(PREVIEW_STEP)
    } else {
        scroll.saturating_sub(PREVIEW_STEP)
    }
}

} // verus!
