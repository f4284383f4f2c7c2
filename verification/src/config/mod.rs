//! The application's configuration: settings, the active theme, the
//! editable Custom theme and the themes the user exported.
pub mod settings;
pub mod theme;

use vstd::prelude::*;

use crate::paths::{extension_of, file_stem_of, join_path, join_spec, opt_string_view, path_extension, path_file_stem};
use crate::ui::file_browser::{lex_le, lemma_lex_total, lemma_lex_trans, sorted_lex, str_le};
pub use settings::Settings;
pub use theme::Theme;
use theme::preset_colors;

verus! {

/// Index of the Custom preset: presets below it are fixed, those above it
/// are the user's exported themes.
pub const CUSTOM_PRESET: usize = 3;

/// The number of presets that come before the user's exported themes.
pub const FIXED_PRESETS: usize = 4;

pub struct Config {
    pub settings: Settings,
    /// The colors in use.
    pub theme: Theme,
    /// The colors of the Custom preset, kept apart from the fixed presets.
    pub custom_theme: Theme,
    /// The active preset: 0 Default, 1 Matrix, 2 SDRX, 3 Custom, 4 and up the
    /// user's exported themes.
    pub active_preset: usize,
    /// The user's exported themes, by name; loaded at start, never saved here.
    pub user_themes: Vec<(String, Theme)>,
}

/// The themes directory under the configuration directory `base`.
pub open spec fn themes_dir_in_spec(base: Seq<char>) -> Seq<char> {
    join_spec(join_spec(base, "sdrx-mimic"@), "themes"@)
}

/// The theme that preset `idx` selects, if any.
pub open spec fn preset_theme(c: Config, idx: int) -> Option<Seq<Seq<char>>> {
    if idx < 3 {
        Some(preset_colors(idx))
    } else if idx == 3 {
        Some(c.custom_theme@)
    } else if idx - 4 < c.user_themes@.len() {
        Some(c.user_themes@[idx - 4].1@)
    } else {
        None
    }
}

/// The name of the exported theme in the file `p`: its stem, when its
/// extension is `toml`.
pub open spec fn theme_name_spec(p: Seq<char>) -> Option<Seq<char>> {
    if path_extension(p) == Some("toml"@) {
        path_file_stem(p)
    } else {
        None
    }
}

/// The names of the exported themes among the files `ps`, in order.
pub open spec fn theme_names_spec(ps: Seq<Seq<char>>) -> Seq<Seq<char>>
    decreases ps.len(),
{
    if ps.len() == 0 {
        seq![]
    } else {
        let rest = theme_names_spec(ps.drop_last());
        match theme_name_spec(ps.last()) {
            Some(n) => rest.push(n),
            None => rest,
        }
    }
}

/// The name of the exported theme in the file `p`, if it is one.
pub fn theme_name_of(p: &str) -> (r: Option<String>)
    ensures
        opt_string_view(r) == theme_name_spec(p@),
{
    match extension_of(p) {
        Some(e) => {
            if crate::text::str_eq(e, "toml") {
                match file_stem_of(p) {
                    Some(s) => Some(String::from_str(s)),
                    None => None,
                }
            } else {
                None
            }
        },
        None => None,
    }
}

/// The names of the exported themes among the files `paths` of the themes
/// directory.
pub fn theme_names(paths: &Vec<String>) -> (r: Vec<String>)
    ensures
        crate::text::views(r@) == theme_names_spec(crate::text::views(paths@)),
{
    let ghost pv = crate::text::views(paths@);
    let mut out: Vec<String> = Vec::new();
    let mut i: usize = 0;
    while i < paths.len()
        invariant
            i <= paths@.len(),
            pv == crate::text::views(paths@),
            crate::text::views(out@) == theme_names_spec(pv.take(i as int)),
        decreases paths.len() - i,
    {
        assert(pv.take(i + 1).drop_last() =~= pv.take(i as int));
        assert(pv.take(i + 1).last() == paths@[i as int]@);
        match theme_name_of(paths[i].as_str()) {
            Some(n) => {
                let ghost before = crate::text::views(out@);
                out.push(n);
                assert(crate::text::views(out@) =~= before.push(n@));
            },
            None => {},
        }
        i = i + 1;
    }
    assert(pv.take(paths@.len() as int) =~= pv);
    out
}

/// A named theme as plain values.
pub open spec fn named_view(t: (String, Theme)) -> (Seq<char>, Seq<Seq<char>>) {
    (t.0@, t.1@)
}

/// Named themes as plain values.
pub open spec fn named_views(ts: Seq<(String, Theme)>) -> Seq<(Seq<char>, Seq<Seq<char>>)> {
    ts.map_values(|t: (String, Theme)| named_view(t))
}

/// The names of named themes.
pub open spec fn theme_keys(ts: Seq<(String, Theme)>) -> Seq<Seq<char>> {
    ts.map_values(|t: (String, Theme)| t.0@)
}

/// The user's themes in order of name; themes of the same name keep their
/// order.
pub fn sort_themes(themes: Vec<(String, Theme)>) -> (r: Vec<(String, Theme)>)
    ensures
        sorted_lex(theme_keys(r@)),
        named_views(r@).to_multiset() == named_views(themes@).to_multiset(),
{
    let ghost tv = named_views(themes@);
    let mut rest = themes;
    let mut out: Vec<(String, Theme)> = Vec::new();
    let ghost mut k: int = 0;
    proof {
        assert(named_views(out@) =~= tv.take(0));
        assert(theme_keys(out@) =~= Seq::<Seq<char>>::empty());
    }
    while rest.len() > 0
        invariant
            0 <= k <= tv.len(),
            named_views(rest@) == tv.skip(k),
            sorted_lex(theme_keys(out@)),
            named_views(out@).to_multiset() == tv.take(k).to_multiset(),
        decreases rest@.len(),
    {
        let ghost r0 = rest@;
        let x = rest.remove(0);
        let ghost xv = named_view(x);
        proof {
            assert(named_views(r0).len() == tv.skip(k).len());
            assert(k < tv.len());
            assert(named_views(r0)[0] == xv);
            assert(tv.skip(k)[0] == tv[k]);
            assert(tv[k] == xv);
            assert(rest@ =~= r0.subrange(1, r0.len() as int));
            assert(named_views(rest@) =~= tv.skip(k + 1)) by {
                assert forall|j: int| 0 <= j < rest@.len() implies #[trigger] named_views(rest@)[j] == tv.skip(k + 1)[j] by {
                    assert(rest@[j] == r0[j + 1]);
                    assert(named_views(r0)[j + 1] == tv.skip(k)[j + 1]);
                }
            }
        }
        let mut p: usize = 0;
        while p < out.len() && str_le(out[p].0.as_str(), x.0.as_str())
            invariant
                p <= out@.len(),
                forall|j: int| 0 <= j < p ==> lex_le(#[trigger] theme_keys(out@)[j], x.0@),
            decreases out.len() - p,
        {
            p = p + 1;
        }
        proof {
            crate::ui::file_browser::lemma_insert_sorted(theme_keys(out@), x.0@, p as int);
        }
        let ghost before = named_views(out@);
        let ghost keys_before = theme_keys(out@);
        out.insert(p, x);
        proof {
            assert(theme_keys(out@) =~= keys_before.insert(p as int, xv.0));
            assert(named_views(out@) =~= before.insert(p as int, xv));
            vstd::seq_lib::to_multiset_insert(before, p as int, xv);
            assert(tv.take(k + 1) =~= tv.take(k).push(xv));
            vstd::seq_lib::to_multiset_build(tv.take(k), xv);
            k = k + 1;
        }
    }
    assert(tv.take(k) =~= tv);
    out
}

impl Default for Config {
    fn default() -> (r: Self)
        ensures
            r.theme@ == theme::default_colors(),
            r.custom_theme@ == theme::default_colors(),
            r.active_preset == 0,
            r.user_themes@.len() == 0,
            r.settings.vault.recent@.len() == 0,
            r.settings.vault.default_vaults_dir is None,
    {
        Config {
            settings: Settings::default(),
            theme: Theme::default_theme(),
            custom_theme: Theme::default_theme(),
            active_preset: 0,
            user_themes: Vec::new(),
        }
    }
}

impl Config {
    /// The configuration file.
    pub fn config_path() -> (r: String)
        ensures
            exists|base: Seq<char>| r@ == settings::config_file_in(base),
    {
        Settings::config_path()
    }

    /// The themes directory under the configuration directory `base`.
    pub fn themes_dir_in(base: &str) -> (r: String)
        ensures
            r@ == themes_dir_in_spec(base@),
    {
        let d = join_path(base, "sdrx-mimic");
        join_path(d.as_str(), "themes")
    }

    /// The directory of exported themes: `sdrx-mimic/themes` under the
    /// user's configuration directory.
    pub fn themes_dir() -> (r: String)
        ensures
            exists|base: Seq<char>| r@ == themes_dir_in_spec(base),
    {
        let base = settings::config_base();
        Self::themes_dir_in(base.as_str())
    }

    /// Makes preset `idx` the active one and uses its colors; an index past
    /// the user's themes only records the index.
    pub fn apply_preset(&mut self, idx: usize)
        ensures
            final(self).active_preset == idx,
            final(self).theme@ == (match preset_theme(*old(self), idx as int) {
                Some(t) => t,
                None => old(self).theme@,
            }),
            final(self).custom_theme == old(self).custom_theme,
            final(self).user_themes == old(self).user_themes,
            final(self).settings == old(self).settings,
    {
        self.active_preset = idx;
        if idx < 3 {
            let presets = Theme::presets();
            self.theme = presets[idx].1.clone();
        } else if idx == 3 {
            self.theme = self.custom_theme.clone();
        } else if idx - 4 < self.user_themes.len() {
            self.theme = self.user_themes[idx - 4].1.clone();
        }
    }

    /// Before the colors get edited: unless Custom is already active, the
    /// colors in use become the Custom preset and Custom becomes active.
    pub fn switch_to_custom_copying_current(&mut self)
        ensures
            final(self).active_preset == CUSTOM_PRESET,
            old(self).active_preset != CUSTOM_PRESET ==> final(self).custom_theme
                == old(self).theme,
            old(self).active_preset == CUSTOM_PRESET ==> final(self).custom_theme
                == old(self).custom_theme,
            final(self).theme == old(self).theme,
            final(self).user_themes == old(self).user_themes,
            final(self).settings == old(self).settings,
    {
        if self.active_preset != 3 {
            self.custom_theme = self.theme.clone();
            self.active_preset = 3;
        }
    }

    /// Uses an imported theme: it becomes the Custom preset, the colors in
    /// use, and Custom becomes active.
    pub fn adopt_theme(&mut self, theme: Theme)
        ensures
            final(self).custom_theme == theme,
            final(self).theme == theme,
            final(self).active_preset == CUSTOM_PRESET,
            final(self).user_themes == old(self).user_themes,
            final(self).settings == old(self).settings,
    {
        self.custom_theme = theme.clone();
        self.theme = theme;
        self.active_preset = 3;
    }
}

} // verus!
