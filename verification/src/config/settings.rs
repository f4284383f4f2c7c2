//! Persistent user settings: the recent vaults and the default directory.
use vstd::prelude::*;
use vstd::string::*;

use crate::modes::ViewMode;
use crate::paths::{join_path, join_spec, opt_string_view};
use crate::text::views;

verus! {

/// How many recent vaults are remembered.
pub const MAX_RECENT: usize = 20;

/// Vault bookkeeping kept in the configuration file.
pub struct VaultConfig {
    pub path: Option<String>,
    pub last_open_notes: Vec<String>,
    pub recent: Vec<String>,
    /// Directory where new vaults are created by default.
    pub default_vaults_dir: Option<String>,
}

/// All settings.
pub struct Settings {
    pub vault: VaultConfig,
    pub view_mode: ViewMode,
}

/// `s` with every occurrence of `p` removed, the rest in order.
pub open spec fn without(s: Seq<Seq<char>>, p: Seq<char>) -> Seq<Seq<char>>
    decreases s.len(),
{
    if s.len() == 0 {
        seq![]
    } else if s.last() == p {
        without(s.drop_last(), p)
    } else {
        without(s.drop_last(), p).push(s.last())
    }
}

/// The recent list after opening `p`: `p` first, then the other entries in
/// their order, at most `MAX_RECENT` in all.
pub open spec fn add_recent_spec(recent: Seq<Seq<char>>, p: Seq<char>) -> Seq<Seq<char>> {
    let l = seq![p] + without(recent, p);
    if l.len() > MAX_RECENT {
        l.take(MAX_RECENT as int)
    } else {
        l
    }
}

/// Where the configuration file lies under the configuration directory `base`.
pub open spec fn config_file_in(base: Seq<char>) -> Seq<char> {
    join_spec(join_spec(base, "sdrx-mimic"@), "config.toml"@)
}

/// `dirs::config_dir`, as text. It reads the environment, so what comes back
/// is not named. Its source never reports an empty directory: on Unix an
/// absolute `XDG_CONFIG_HOME`, or `.config` joined onto a home directory that
/// is itself non-empty; on macOS a directory under that home directory.
#[verifier::external_body]
pub(crate) fn user_config_dir() -> (r: Option<String>)
    ensures
        r matches Some(d) ==> d@.len() > 0,
{
    dirs::config_dir().map(|p| p.to_string_lossy().into_owned())
}

/// The configuration directory used when the system reports `reported`:
/// that directory, or `~/.config` when it reports none.
pub open spec fn config_base_spec(reported: Option<Seq<char>>) -> Seq<char> {
    match reported {
        Some(d) => d,
        None => "~/.config"@,
    }
}

/// The configuration directory used when the system reports `reported`.
pub fn config_base_from(reported: Option<String>) -> (r: String)
    ensures
        r@ == config_base_spec(opt_string_view(reported)),
{
    match reported {
        Some(d) => d,
        None => String::from_str("~/.config"),
    }
}

/// The user's configuration directory, or `~/.config` when the system
/// reports none; never empty.
pub fn config_base() -> (r: String)
    ensures
        r@.len() > 0,
{
    let reported = user_config_dir();
    proof {
        reveal_strlit("~/.config");
    }
    config_base_from(reported)
}

proof fn lemma_without_no(s: Seq<Seq<char>>, p: Seq<char>)
    ensures
        !without(s, p).contains(p),
        without(s, p).len() <= s.len(),
    decreases s.len(),
{
    if s.len() > 0 {
        lemma_without_no(s.drop_last(), p);
    }
}

proof fn lemma_without_absent(s: Seq<Seq<char>>, p: Seq<char>)
    requires
        !s.contains(p),
    ensures
        without(s, p) == s,
    decreases s.len(),
{
    if s.len() > 0 {
        assert(!s.drop_last().contains(p)) by {
            if s.drop_last().contains(p) {
                let i = choose|i: int| 0 <= i < s.drop_last().len() && s.drop_last()[i] == p;
                assert(s[i] == p);
            }
        }
        lemma_without_absent(s.drop_last(), p);
        assert(s.last() != p) by {
            assert(s[s.len() - 1] == s.last());
        }
        assert(s.drop_last().push(s.last()) =~= s);
    }
}

proof fn lemma_without_front(x: Seq<Seq<char>>, p: Seq<char>)
    ensures
        without(seq![p] + x, p) == without(x, p),
    decreases x.len(),
{
    if x.len() == 0 {
        assert((seq![p] + x).drop_last() =~= Seq::<Seq<char>>::empty());
        assert((seq![p] + x).last() == p);
        assert(without(Seq::<Seq<char>>::empty(), p) =~= Seq::<Seq<char>>::empty());
        assert(without(x, p) =~= Seq::<Seq<char>>::empty());
    } else {
        assert((seq![p] + x).drop_last() =~= seq![p] + x.drop_last());
        assert((seq![p] + x).last() == x.last());
        lemma_without_front(x.drop_last(), p);
    }
}

impl VaultConfig {
    /// Records `path` as the most recent vault and as the current one: it
    /// moves to the front of the recent list, other entries keep their
    /// order, and the list keeps at most `MAX_RECENT` entries.
    pub fn add_recent(&mut self, path: &str)
        ensures
            views(final(self).recent@) == add_recent_spec(views(old(self).recent@), path@),
            final(self).path matches Some(p) && p@ == path@,
            final(self).last_open_notes == old(self).last_open_notes,
            final(self).default_vaults_dir == old(self).default_vaults_dir,
    {
        let p = String::from_str(path);
        let mut kept: Vec<String> = Vec::new();
        let mut i: usize = 0;
        while i < self.recent.len()
            invariant
                i <= self.recent@.len(),
                p@ == path@,
                views(kept@) == without(views(self.recent@).take(i as int), p@),
            decreases self.recent@.len() - i,
        {
            let ghost r = views(self.recent@);
            assert(r.take(i + 1).drop_last() =~= r.take(i as int));
            assert(r.take(i + 1).last() == self.recent@[i as int]@);
            if self.recent[i] != p {
                kept.push(self.recent[i].clone());
                assert(views(kept@) =~= without(r.take(i as int), p@).push(self.recent@[i as int]@));
            }
            i = i + 1;
        }
        assert(views(self.recent@).take(self.recent@.len() as int) =~= views(self.recent@));
        let ghost w = views(kept@);
        kept.insert(0, p.clone());
        assert(views(kept@) =~= seq![p@] + w);
        kept.truncate(MAX_RECENT);
        assert(views(kept@) =~= add_recent_spec(views(old(self).recent@), path@));
        self.recent = kept;
        self.path = Some(p);
    }

    /// Forgets the recent vault at `idx`; an index past the end changes
    /// nothing.
    pub fn remove_recent(&mut self, idx: usize)
        ensures
            idx < old(self).recent@.len() ==> final(self).recent@ == old(self).recent@.remove(
                idx as int,
            ),
            idx >= old(self).recent@.len() ==> final(self).recent@ == old(self).recent@,
            final(self).path == old(self).path,
            final(self).last_open_notes == old(self).last_open_notes,
            final(self).default_vaults_dir == old(self).default_vaults_dir,
    {
        if idx < self.recent.len() {
            self.recent.remove(idx);
        }
    }

    /// Whether a default directory for new vaults has been chosen.
    pub fn has_default_dir(&self) -> (r: bool)
        ensures
            r == self.default_vaults_dir is Some,
    {
        self.default_vaults_dir.is_some()
    }
}

impl Default for VaultConfig {
    fn default() -> (r: Self)
        ensures
            r.path is None,
            r.last_open_notes@.len() == 0,
            r.recent@.len() == 0,
            r.default_vaults_dir is None,
    {
        VaultConfig {
            path: None,
            last_open_notes: Vec::new(),
            recent: Vec::new(),
            default_vaults_dir: None,
        }
    }
}

impl Default for Settings {
    fn default() -> (r: Self)
        ensures
            r.vault.path is None,
            r.vault.last_open_notes@.len() == 0,
            r.vault.recent@.len() == 0,
            r.vault.default_vaults_dir is None,
            r.view_mode == ViewMode::Editor,
    {
        Settings { vault: VaultConfig::default(), view_mode: ViewMode::Editor }
    }
}

impl Settings {
    /// The configuration file under the configuration directory `base`.
    pub fn config_path_in(base: &str) -> (r: String)
        ensures
            r@ == config_file_in(base@),
    {
        let d = join_path(base, "sdrx-mimic");
        join_path(d.as_str(), "config.toml")
    }

    /// The configuration file: `sdrx-mimic/config.toml` under the user's
    /// configuration directory.
    pub fn config_path() -> (r: String)
        ensures
            exists|base: Seq<char>| r@ == config_file_in(base),
    {
        let base = config_base();
        Self::config_path_in(base.as_str())
    }
}

/// Opening a vault puts it first, exactly once, and keeps the list within
/// `MAX_RECENT` entries.
pub proof fn lemma_add_recent_front(recent: Seq<Seq<char>>, p: Seq<char>)
    ensures
        add_recent_spec(recent, p).len() > 0,
        add_recent_spec(recent, p)[0] == p,
        add_recent_spec(recent, p).len() <= MAX_RECENT,
        !add_recent_spec(recent, p).drop_first().contains(p),
{
    lemma_without_no(recent, p);
    let l = seq![p] + without(recent, p);
    let a = add_recent_spec(recent, p);
    assert(a[0] == l[0]);
    assert forall|i: int| 0 <= i < a.drop_first().len() implies a.drop_first()[i] != p by {
        assert(a.drop_first()[i] == without(recent, p)[i]);
    }
}

/// Opening the same vault twice leaves the recent list as opening it once.
pub proof fn lemma_add_recent_idempotent(recent: Seq<Seq<char>>, p: Seq<char>)
    ensures
        add_recent_spec(add_recent_spec(recent, p), p) == add_recent_spec(recent, p),
{
    let w = without(recent, p);
    lemma_without_no(recent, p);
    let a = add_recent_spec(recent, p);
    let k: int = if w.len() + 1 > MAX_RECENT {
        MAX_RECENT - 1
    } else {
        w.len() as int
    };
    assert(a =~= seq![p] + w.take(k));
    assert(!w.take(k).contains(p)) by {
        if w.take(k).contains(p) {
            let i = choose|i: int| 0 <= i < w.take(k).len() && w.take(k)[i] == p;
            assert(w[i] == p);
        }
    }
    lemma_without_front(w.take(k), p);
    lemma_without_absent(w.take(k), p);
    assert(add_recent_spec(a, p) =~= a);
}

} // verus!
