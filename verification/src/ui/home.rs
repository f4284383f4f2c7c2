//! The home screen: the list of recent vaults.
use vstd::prelude::*;

use crate::config::settings::VaultConfig;
use crate::config::theme::{parse_color_spec, Theme};
use crate::keys::{Key, KeyCode};
use crate::text::views;
use crate::ui::styled::{bold, fg_style, lines_view, push_str, spanv, Span, SpanV, Style};
use vstd::string::*;

verus! {

/// A text input the home screen may be collecting.
#[derive(Clone, Copy, Debug, PartialEq, Eq, Structural)]
pub enum HomeInput {
    /// No input is being typed.
    Idle,
    NewVault,
    OpenPath,
}

pub struct HomeState {
    /// The selected recent vault.
    pub selected: usize,
    pub input_mode: HomeInput,
    pub input_buffer: String,
}

impl Default for HomeState {
    fn default() -> (r: Self)
        ensures
            r.selected == 0,
            r.input_mode == HomeInput::Idle,
            r.input_buffer@.len() == 0,
    {
        HomeState { selected: 0, input_mode: HomeInput::Idle, input_buffer: String::new() }
    }
}

/// Where a file browser opened from the home screen leads.
#[derive(Clone, Copy, Debug, PartialEq, Eq, Structural)]
pub enum HomeBrowse {
    /// `o`: open an existing vault.
    OpenVault,
    /// `s`: choose the default directory for new vaults.
    SetDefaultDir,
}

/// A recent vault's row on the home screen: the selected one marked `▸ ` in
/// bold accent, the others indented in the text color.
pub open spec fn home_item_spec(v: Seq<char>, sel: bool, t: Theme) -> Seq<SpanV> {
    if sel {
        seq![spanv("▸ "@ + v, bold(fg_style(parse_color_spec(t.accent@))))]
    } else {
        seq![spanv("  "@ + v, fg_style(parse_color_spec(t.fg@)))]
    }
}

/// The rows of the recent vaults list; without vaults, a hint.
pub open spec fn home_items_spec(recent: Seq<Seq<char>>, selected: int, t: Theme) -> Seq<Seq<SpanV>> {
    if recent.len() == 0 {
        seq![seq![spanv("  Sin vaults guardadas. Presiona 'n' para crear una."@, fg_style(parse_color_spec(t.tab_inactive@)))]]
    } else {
        Seq::new(recent.len(), |i: int| home_item_spec(recent[i], i == selected, t))
    }
}

/// The rows of the recent vaults list, `selected` the selected one.
pub fn home_items(recent: &Vec<String>, selected: usize, theme: &Theme) -> (r: Vec<Vec<Span>>)
    ensures
        lines_view(r@) == home_items_spec(views(recent@), selected as int, *theme),
{
    let accent = Theme::parse_color(theme.accent.as_str());
    let fg = Theme::parse_color(theme.fg.as_str());
    let mut out: Vec<Vec<Span>> = Vec::new();
    if recent.len() == 0 {
        let inactive = Theme::parse_color(theme.tab_inactive.as_str());
        let mut l: Vec<Span> = Vec::new();
        l.push(Span { text: String::from_str("  Sin vaults guardadas. Presiona 'n' para crear una."), style: Style::fg(inactive) });
        assert(crate::ui::styled::line_view(l@) =~= home_items_spec(views(recent@), selected as int, *theme)[0]);
        out.push(l);
        assert(lines_view(out@) =~= home_items_spec(views(recent@), selected as int, *theme));
        return out;
    }
    let ghost want = home_items_spec(views(recent@), selected as int, *theme);
    let mut i: usize = 0;
    while i < recent.len()
        invariant
            i <= recent@.len(),
            recent@.len() > 0,
            want == home_items_spec(views(recent@), selected as int, *theme),
            accent == parse_color_spec(theme.accent@),
            fg == parse_color_spec(theme.fg@),
            lines_view(out@) =~= want.take(i as int),
        decreases recent.len() - i,
    {
        let sel = i == selected;
        let mut t = String::from_str(if sel {
            "▸ "
        } else {
            "  "
        });
        push_str(&mut t, recent[i].as_str());
        let style = if sel {
            Style::fg(accent).bold()
        } else {
            Style::fg(fg)
        };
        let mut l: Vec<Span> = Vec::new();
        l.push(Span { text: t, style });
        assert(views(recent@)[i as int] == recent@[i as int]@);
        assert(crate::ui::styled::line_view(l@) =~= want[i as int]);
        let ghost before = lines_view(out@);
        out.push(l);
        assert(lines_view(out@) =~= before.push(want[i as int]));
        assert(want.take(i + 1) =~= want.take(i as int).push(want[i as int]));
        i = i + 1;
    }
    assert(want.take(recent@.len() as int) =~= want);
    out
}

/// The title of the path input the home screen shows, if one is being
/// typed.
pub open spec fn home_input_title_spec(m: HomeInput) -> Option<Seq<char>> {
    match m {
        HomeInput::Idle => None,
        HomeInput::NewVault => Some(" Nueva vault — ruta: "@),
        HomeInput::OpenPath => Some(" Abrir vault — ruta: "@),
    }
}

/// The title and text of the path input of the home screen, if one is
/// being typed: the text is the input with a `_` cursor.
pub fn home_input(state: &HomeState) -> (r: Option<(&'static str, String)>)
    ensures
        match home_input_title_spec(state.input_mode) {
            Some(t) => r matches Some((a, b)) && a@ == t && b@ == state.input_buffer@ + "_"@,
            None => r is None,
        },
{
    let title: &'static str = match state.input_mode {
        HomeInput::Idle => {
            return None;
        },
        HomeInput::NewVault => " Nueva vault — ruta: ",
        HomeInput::OpenPath => " Abrir vault — ruta: ",
    };
    let mut b = state.input_buffer.clone();
    push_str(&mut b, "_");
    Some((title, b))
}

/// What the application is to do after a key press on the home screen.
pub enum HomeAction {
    Nothing,
    /// `q` or `Q`.
    Quit,
    /// `n`: ask for the name of a new vault.
    NewVault,
    /// `o` or `s`: open a file browser.
    Browse(HomeBrowse),
    /// Enter: open the selected recent vault.
    Open(String),
    /// `d`: the selected vault left the recent list; save the configuration.
    Save,
}

/// Handles the key press `key` on the home screen, whose recent vaults are
/// those of `vaults`.
pub fn home_key(state: &mut HomeState, vaults: &mut VaultConfig, key: Key) -> (r: HomeAction)
    requires
        key.code == KeyCode::Enter && old(vaults).recent@.len() > 0 ==> old(state).selected < old(
            vaults,
        ).recent@.len(),
    ensures
        final(state).input_mode == old(state).input_mode,
        final(state).input_buffer == old(state).input_buffer,
        final(vaults).path == old(vaults).path,
        final(vaults).default_vaults_dir == old(vaults).default_vaults_dir,
        key.code != KeyCode::Char('d') ==> final(vaults).recent == old(vaults).recent,
        ({
            let (c, s, n) = (key.code, old(state).selected, old(vaults).recent@.len());
            if c == KeyCode::Char('q') || c == KeyCode::Char('Q') {
                r is Quit && final(state).selected == s
            } else if c == KeyCode::Char('n') {
                r is NewVault && final(state).selected == s
            } else if c == KeyCode::Char('o') {
                r matches HomeAction::Browse(HomeBrowse::OpenVault) && final(state).selected == s
            } else if c == KeyCode::Char('s') {
                r matches HomeAction::Browse(HomeBrowse::SetDefaultDir) && final(state).selected == s
            } else if c == KeyCode::Char('j') || c == KeyCode::Down {
                r is Nothing && final(state).selected == (if s + 1 < n {
                    s + 1
                } else {
                    s as int
                })
            } else if c == KeyCode::Char('k') || c == KeyCode::Up {
                r is Nothing && final(state).selected == (if s > 0 {
                    s - 1
                } else {
                    0
                })
            } else if c == KeyCode::Enter {
                &&& final(state).selected == s
                &&& n > 0 ==> (r matches HomeAction::Open(p) && p@ == old(vaults).recent@[s as int]@)
                &&& n == 0 ==> r is Nothing
            } else if c == KeyCode::Char('d') {
                &&& r is Save
                &&& s < n ==> final(vaults).recent@ == old(vaults).recent@.remove(s as int)
                &&& s >= n ==> final(vaults).recent@ == old(vaults).recent@
                &&& final(state).selected == (if s >= final(vaults).recent@.len() && s > 0 {
                    s - 1
                } else {
                    s as int
                })
            } else {
                r is Nothing && final(state).selected == s
            }
        }),
{
    let c = key.code;
    let s = state.selected;
    let n = vaults.recent.len();
    if c == KeyCode::Char('q') || c == KeyCode::Char('Q') {
        HomeAction::Quit
    } else if c == KeyCode::Char('n') {
        HomeAction::NewVault
    } else if c == KeyCode::Char('o') {
        HomeAction::Browse(HomeBrowse::OpenVault)
    } else if c == KeyCode::Char('s') {
        HomeAction::Browse(HomeBrowse::SetDefaultDir)
    } else if c == KeyCode::Char('j') || c == KeyCode::Down {
        if n > 0 && s < n - 1 {
            state.selected = s + 1;
        }
        HomeAction::Nothing
    } else if c == KeyCode::Char('k') || c == KeyCode::Up {
        if s > 0 {
            state.selected = s - 1;
        }
        HomeAction::Nothing
    } else if c == KeyCode::Enter {
        if n > 0 {
            HomeAction::Open(vaults.recent[s].clone())
        } else {
            HomeAction::Nothing
        }
    } else if c == KeyCode::Char('d') {
        vaults.remove_recent(s);
        if s >= vaults.recent.len() && s > 0 {
            state.selected = s - 1;
        }
        HomeAction::Save
    } else {
        HomeAction::Nothing
    }
}

} // verus!
