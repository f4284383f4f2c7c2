//! The tree of a vault as the sidebar shows it: folders and Markdown notes in
//! walk order, with collapsible folders.
use vstd::prelude::*;
use vstd::string::*;

use crate::config::settings::without;
use crate::paths::{components_of, path_components, path_extension};
use crate::text::views;

verus! {

/// One entry of a directory walk, as the walk reports it (root first,
/// entries sorted by file name).
pub struct WalkEntry {
    pub path: String,
    pub name: String,
    /// Depth below the walk's root; the root itself has depth 0.
    pub depth: usize,
    pub is_dir: bool,
}

/// A folder or note of the tree.
pub struct FileEntry {
    pub path: String,
    pub name: String,
    /// Nesting level below the vault root; the vault's own children are at 0.
    pub depth: usize,
    pub is_dir: bool,
}

pub struct FileTree {
    pub entries: Vec<FileEntry>,
    pub selected: usize,
    pub vault_root: String,
    /// Paths of the collapsed folders, as a list: vstd specifies hash sets
    /// only for integer keys, so a set of paths could be stated nothing of.
    pub collapsed: Vec<String>,
}

/// Some component of the path below the vault root starts with a dot
/// (`.git`, `.obsidian`, ...): one of its last `depth` components, `depth`
/// being how deep the walk found it. The root's own path does not count.
pub open spec fn is_hidden_path(p: Seq<char>, depth: nat) -> bool {
    let comps = path_components(p);
    exists|i: int|
        comps.len() - depth <= i < comps.len() && 0 <= i && (#[trigger] comps[i]).len() > 0 && comps[i][0] == '.'
}

/// The walk entries the tree shows: not hidden, and a folder or a `.md` file.
pub open spec fn kept(w: WalkEntry) -> bool {
    !is_hidden_path(w.path@, w.depth as nat) && (w.is_dir || path_extension(w.path@) == Some("md"@))
}

/// The tree entry for a walk entry: one level shallower.
pub open spec fn as_entry(w: WalkEntry) -> FileEntry {
    FileEntry {
        path: w.path,
        name: w.name,
        depth: if w.depth >= 1 {
            (w.depth - 1) as usize
        } else {
            0
        },
        is_dir: w.is_dir,
    }
}

/// `kept` as a function value.
pub open spec fn kept_fn() -> spec_fn(WalkEntry) -> bool {
    |w: WalkEntry| kept(w)
}

/// `as_entry` as a function value.
pub open spec fn as_entry_fn() -> spec_fn(WalkEntry) -> FileEntry {
    |w: WalkEntry| as_entry(w)
}

/// The tree entries for a walk: the kept entries without the first one
/// (the root itself).
pub open spec fn tree_entries(ws: Seq<WalkEntry>) -> Seq<FileEntry> {
    let k = ws.filter(kept_fn());
    if k.len() == 0 {
        seq![]
    } else {
        k.drop_first().map_values(as_entry_fn())
    }
}

/// The selection after a rebuild: the old one, or the last entry if the
/// tree got shorter.
pub open spec fn clamp_selection(prev: int, n: int) -> usize {
    let last = if n >= 1 {
        n - 1
    } else {
        0
    };
    (if prev <= last {
        prev
    } else {
        last
    }) as usize
}

/// The visible entries from index `i` on, while the walk skips everything
/// deeper than `skip` (the depth of the last collapsed folder seen).
pub open spec fn vis_from(
    es: Seq<FileEntry>,
    collapsed: Seq<Seq<char>>,
    i: int,
    skip: Option<usize>,
) -> Seq<usize>
    decreases es.len() - i,
{
    if i < 0 || i >= es.len() {
        seq![]
    } else {
        let e = es[i];
        let hidden = match skip {
            Some(d) => e.depth > d,
            None => false,
        };
        if hidden {
            vis_from(es, collapsed, i + 1, skip)
        } else {
            let next_skip = if e.is_dir && collapsed.contains(e.path@) {
                Some(e.depth)
            } else {
                None
            };
            seq![i as usize] + vis_from(es, collapsed, i + 1, next_skip)
        }
    }
}

/// The indices of the entries the sidebar shows: everything but what lies
/// below a collapsed folder.
pub open spec fn visible_spec(t: FileTree) -> Seq<usize> {
    vis_from(t.entries@, views(t.collapsed@), 0, None)
}

/// The first position of `x` in `s`.
pub open spec fn position_of(s: Seq<usize>, x: usize) -> Option<int>
    decreases s.len(),
{
    if s.len() == 0 {
        None
    } else if s[0] == x {
        Some(0)
    } else {
        match position_of(s.drop_first(), x) {
            Some(p) => Some(p + 1),
            None => None,
        }
    }
}

/// The selection after moving down among the visible entries.
pub open spec fn selection_down(vis: Seq<usize>, sel: usize) -> usize {
    match position_of(vis, sel) {
        Some(p) => if p + 1 < vis.len() {
            vis[p + 1]
        } else {
            sel
        },
        None => sel,
    }
}

/// The selection after moving up among the visible entries.
pub open spec fn selection_up(vis: Seq<usize>, sel: usize) -> usize {
    match position_of(vis, sel) {
        Some(p) => if p > 0 {
            vis[p - 1]
        } else {
            sel
        },
        None => sel,
    }
}

/// The collapsed folders after toggling `p`.
pub open spec fn toggled(c: Seq<Seq<char>>, p: Seq<char>) -> Seq<Seq<char>> {
    if c.contains(p) {
        without(c, p)
    } else {
        c.push(p)
    }
}

fn contains_string(v: &Vec<String>, s: &String) -> (r: bool)
    ensures
        r == views(v@).contains(s@),
{
    let mut i: usize = 0;
    while i < v.len()
        invariant
            i <= v@.len(),
            forall|j: int| 0 <= j < i ==> v@[j]@ != s@,
        decreases v@.len() - i,
    {
        if v[i] == *s {
            assert(views(v@)[i as int] == s@);
            return true;
        }
        i = i + 1;
    }
    assert(!views(v@).contains(s@)) by {
        if views(v@).contains(s@) {
            let j = choose|j: int| 0 <= j < views(v@).len() && views(v@)[j] == s@;
            assert(v@[j]@ == s@);
        }
    }
    false
}

fn is_hidden(path: &str, depth: usize) -> (r: bool)
    ensures
        r == is_hidden_path(path@, depth as nat),
{
    let comps = components_of(path);
    let ghost cs = path_components(path@);
    let mut i: usize = if comps.len() > depth {
        comps.len() - depth
    } else {
        0
    };
    let ghost start = i;
    while i < comps.len()
        invariant
            start <= i <= comps@.len(),
            start == (if comps@.len() > depth { comps@.len() - depth } else { 0 }),
            views(comps@) == cs,
            cs == path_components(path@),
            forall|j: int| start <= j < i ==> !((#[trigger] cs[j]).len() > 0 && cs[j][0] == '.'),
        decreases comps@.len() - i,
    {
        let cv = crate::text::chars_of(comps[i].as_str());
        assert(cv@ == cs[i as int]);
        if cv.len() > 0 && cv[0] == '.' {
            assert(cs[i as int].len() > 0 && cs[i as int][0] == '.');
            assert(is_hidden_path(path@, depth as nat));
            return true;
        }
        i = i + 1;
    }
    false
}

fn keeps(w: &WalkEntry) -> (r: bool)
    ensures
        r == kept(*w),
{
    if is_hidden(w.path.as_str(), w.depth) {
        return false;
    }
    if w.is_dir {
        return true;
    }
    crate::paths::has_md_extension(w.path.as_str())
}

/// The tree entries for a walk of the vault.
pub fn entries_from_walk(walked: &Vec<WalkEntry>) -> (r: Vec<FileEntry>)
    ensures
        r@ == tree_entries(walked@),
{
    let ghost f = kept_fn();
    let ghost g = as_entry_fn();
    let mut out: Vec<FileEntry> = Vec::new();
    let mut seen_root = false;
    let mut i: usize = 0;
    while i < walked.len()
        invariant
            i <= walked@.len(),
            f == kept_fn(),
            g == as_entry_fn(),
            seen_root == (walked@.take(i as int).filter(f).len() > 0),
            out@ == tree_entries(walked@.take(i as int)),
        decreases walked@.len() - i,
    {
        let ghost k = walked@.take(i as int).filter(f);
        let w = &walked[i];
        assert(walked@.take(i + 1).drop_last() =~= walked@.take(i as int));
        assert(walked@.take(i + 1).last() == *w);
        assert(f(*w) == kept(*w));
        assert(g(*w) == as_entry(*w));
        if keeps(w) {
            assert(walked@.take(i + 1).filter(f) == k.push(*w)) by {
                reveal_with_fuel(Seq::<_>::filter, 1);
            }
            if seen_root {
                let e = FileEntry {
                    path: w.path.clone(),
                    name: w.name.clone(),
                    depth: if w.depth >= 1 {
                        w.depth - 1
                    } else {
                        0
                    },
                    is_dir: w.is_dir,
                };
                assert(e == as_entry(*w));
                out.push(e);
                assert(k.push(*w).drop_first() =~= k.drop_first().push(*w));
                assert(k.drop_first().push(*w).map_values(g) =~= k.drop_first().map_values(g).push(
                    as_entry(*w),
                ));
            } else {
                assert(k.push(*w).drop_first() =~= Seq::<WalkEntry>::empty());
                assert(tree_entries(walked@.take(i + 1)) =~= Seq::<FileEntry>::empty());
                seen_root = true;
            }
        } else {
            assert(walked@.take(i + 1).filter(f) == k) by {
                reveal_with_fuel(Seq::<_>::filter, 1);
            }
        }
        i = i + 1;
    }
    assert(walked@.take(walked@.len() as int) =~= walked@);
    out
}

proof fn lemma_contains_push(t: Seq<Seq<char>>, l: Seq<char>, x: Seq<char>)
    ensures
        t.push(l).contains(x) <==> (t.contains(x) || l == x),
{
    if t.push(l).contains(x) {
        let i = choose|i: int| 0 <= i < t.push(l).len() && t.push(l)[i] == x;
        if i < t.len() {
            assert(t[i] == x);
        }
    }
    if t.contains(x) {
        let i = choose|i: int| 0 <= i < t.len() && t[i] == x;
        assert(t.push(l)[i] == x);
    }
    if l == x {
        assert(t.push(l)[t.len() as int] == x);
    }
}

proof fn lemma_without_contains(s: Seq<Seq<char>>, p: Seq<char>, x: Seq<char>)
    ensures
        without(s, p).contains(x) <==> (s.contains(x) && x != p),
    decreases s.len(),
{
    if s.len() > 0 {
        let dl = s.drop_last();
        lemma_without_contains(dl, p, x);
        assert(dl.push(s.last()) =~= s);
        lemma_contains_push(dl, s.last(), x);
        lemma_contains_push(without(dl, p), s.last(), x);
    }
}

fn without_string(v: &Vec<String>, s: &String) -> (r: Vec<String>)
    ensures
        views(r@) == without(views(v@), s@),
{
    let mut out: Vec<String> = Vec::new();
    let mut i: usize = 0;
    while i < v.len()
        invariant
            i <= v@.len(),
            views(out@) == without(views(v@).take(i as int), s@),
        decreases v@.len() - i,
    {
        let ghost t = views(v@);
        assert(t.take(i + 1).drop_last() =~= t.take(i as int));
        assert(t.take(i + 1).last() == v@[i as int]@);
        if v[i] != *s {
            out.push(v[i].clone());
            assert(views(out@) =~= without(t.take(i as int), s@).push(v@[i as int]@));
        }
        i = i + 1;
    }
    assert(views(v@).take(v@.len() as int) =~= views(v@));
    out
}

impl FileTree {
    /// The tree of the vault at `vault_root` from a walk of it; nothing
    /// collapsed, the first entry selected.
    pub fn load(vault_root: &str, walked: Vec<WalkEntry>) -> (r: FileTree)
        ensures
            r.entries@ == tree_entries(walked@),
            r.selected == 0,
            r.vault_root@ == vault_root@,
            r.collapsed@.len() == 0,
    {
        let entries = entries_from_walk(&walked);
        FileTree {
            entries,
            selected: 0,
            vault_root: String::from_str(vault_root),
            collapsed: Vec::new(),
        }
    }

    /// The selected entry, if the selection points at one.
    pub fn selected_entry(&self) -> (r: Option<&FileEntry>)
        ensures
            self.selected < self.entries@.len() ==> r == Some(&self.entries@[self.selected as int]),
            self.selected >= self.entries@.len() ==> r is None,
    {
        if self.selected < self.entries.len() {
            Some(&self.entries[self.selected])
        } else {
            None
        }
    }

    /// The indices of the entries the sidebar shows, in order: an entry
    /// below a collapsed folder is hidden.
    pub fn visible_indices(&self) -> (r: Vec<usize>)
        ensures
            r@ == visible_spec(*self),
    {
        let ghost es = self.entries@;
        let ghost cs = views(self.collapsed@);
        let mut vis: Vec<usize> = Vec::new();
        let mut skip_depth: Option<usize> = None;
        let mut i: usize = 0;
        while i < self.entries.len()
            invariant
                es == self.entries@,
                cs == views(self.collapsed@),
                i <= es.len(),
                vis@ + vis_from(es, cs, i as int, skip_depth) == vis_from(es, cs, 0, None),
            decreases es.len() - i,
        {
            let e = &self.entries[i];
            let hidden = match skip_depth {
                Some(d) => e.depth > d,
                None => false,
            };
            let ghost old_sd = skip_depth;
            if hidden {
                i = i + 1;
            } else {
                vis.push(i);
                if e.is_dir && contains_string(&self.collapsed, &e.path) {
                    skip_depth = Some(e.depth);
                } else {
                    skip_depth = None;
                }
                assert(vis_from(es, cs, i as int, old_sd) == seq![i] + vis_from(
                    es,
                    cs,
                    i + 1,
                    skip_depth,
                ));
                assert(vis@ + vis_from(es, cs, i + 1, skip_depth) =~= vis@.drop_last() + vis_from(
                    es,
                    cs,
                    i as int,
                    old_sd,
                ));
                i = i + 1;
            }
        }
        assert(vis@ + vis_from(es, cs, i as int, skip_depth) =~= vis@);
        vis
    }

    /// Collapses the selected folder, or expands it if it was collapsed;
    /// nothing happens unless a folder is selected.
    pub fn toggle_dir(&mut self)
        ensures
            final(self).entries == old(self).entries,
            final(self).selected == old(self).selected,
            final(self).vault_root == old(self).vault_root,
            (old(self).selected < old(self).entries@.len() && old(
                self,
            ).entries@[old(self).selected as int].is_dir) ==> views(final(self).collapsed@)
                == toggled(
                views(old(self).collapsed@),
                old(self).entries@[old(self).selected as int].path@,
            ),
            !(old(self).selected < old(self).entries@.len() && old(
                self,
            ).entries@[old(self).selected as int].is_dir) ==> final(self).collapsed == old(
                self,
            ).collapsed,
    {
        if self.selected < self.entries.len() && self.entries[self.selected].is_dir {
            let p = self.entries[self.selected].path.clone();
            if contains_string(&self.collapsed, &p) {
                self.collapsed = without_string(&self.collapsed, &p);
            } else {
                self.collapsed.push(p);
                assert(views(self.collapsed@) =~= views(old(self).collapsed@).push(p@));
            }
        }
    }

    /// Moves the selection to the next visible entry, if there is one.
    pub fn move_down(&mut self)
        ensures
            final(self).selected == selection_down(visible_spec(*old(self)), old(self).selected),
            final(self).entries == old(self).entries,
            final(self).collapsed == old(self).collapsed,
            final(self).vault_root == old(self).vault_root,
    {
        let vis = self.visible_indices();
        match position(&vis, self.selected) {
            Some(pos) => {
                if pos < vis.len() - 1 {
                    self.selected = vis[pos + 1];
                }
            },
            None => {},
        }
    }

    /// Moves the selection to the previous visible entry, if there is one.
    pub fn move_up(&mut self)
        ensures
            final(self).selected == selection_up(visible_spec(*old(self)), old(self).selected),
            final(self).entries == old(self).entries,
            final(self).collapsed == old(self).collapsed,
            final(self).vault_root == old(self).vault_root,
    {
        let vis = self.visible_indices();
        match position(&vis, self.selected) {
            Some(pos) => {
                if pos > 0 {
                    self.selected = vis[pos - 1];
                }
            },
            None => {},
        }
    }

    /// Rebuilds the entries from a fresh walk of the vault; the collapsed
    /// folders stay, and the selection stays where it was or moves to the
    /// last entry if the tree got shorter.
    pub fn refresh(&mut self, walked: Vec<WalkEntry>)
        ensures
            final(self).entries@ == tree_entries(walked@),
            final(self).vault_root == old(self).vault_root,
            final(self).collapsed == old(self).collapsed,
            final(self).selected == clamp_selection(
                old(self).selected as int,
                tree_entries(walked@).len() as int,
            ),
    {
        let entries = entries_from_walk(&walked);
        let last = if entries.len() >= 1 {
            entries.len() - 1
        } else {
            0
        };
        self.selected = if self.selected <= last {
            self.selected
        } else {
            last
        };
        self.entries = entries;
    }
}

/// The first position of `x` in `v`.
fn position(v: &Vec<usize>, x: usize) -> (r: Option<usize>)
    ensures
        match r {
            Some(p) => position_of(v@, x) == Some(p as int) && p < v@.len(),
            None => position_of(v@, x) is None,
        },
{
    let mut i: usize = 0;
    assert(v@.skip(0) =~= v@);
    while i < v.len()
        invariant
            i <= v@.len(),
            position_of(v@, x) == (match position_of(v@.skip(i as int), x) {
                Some(p) => Some(p + i),
                None => None,
            }),
        decreases v@.len() - i,
    {
        assert(v@.skip(i as int)[0] == v@[i as int]);
        if v[i] == x {
            return Some(i);
        }
        assert(v@.skip(i as int).drop_first() =~= v@.skip(i + 1));
        i = i + 1;
    }
    assert(v@.skip(i as int) =~= Seq::<usize>::empty());
    None
}


/// The visible indices are strictly increasing and each names an entry.
pub proof fn lemma_visible_ordered(es: Seq<FileEntry>, cs: Seq<Seq<char>>, i: int, skip: Option<usize>)
    requires
        0 <= i,
        es.len() <= usize::MAX,
    ensures
        forall|a: int|
            0 <= a < vis_from(es, cs, i, skip).len() ==> i <= #[trigger] vis_from(es, cs, i, skip)[a]
                < es.len(),
        forall|a: int, b: int|
            0 <= a < b < vis_from(es, cs, i, skip).len() ==> #[trigger] vis_from(es, cs, i, skip)[a]
                < #[trigger] vis_from(es, cs, i, skip)[b],
    decreases es.len() - i,
{
    if i < es.len() {
        let e = es[i];
        let hidden = match skip {
            Some(d) => e.depth > d,
            None => false,
        };
        let next_skip = if e.is_dir && cs.contains(e.path@) {
            Some(e.depth)
        } else {
            None
        };
        lemma_visible_ordered(es, cs, i + 1, skip);
        lemma_visible_ordered(es, cs, i + 1, next_skip);
        if !hidden {
            let v = vis_from(es, cs, i, skip);
            let rest = vis_from(es, cs, i + 1, next_skip);
            assert(v == seq![i as usize] + rest);
            assert forall|a: int| 0 <= a < v.len() implies i <= #[trigger] v[a] < es.len() by {
                if a > 0 {
                    assert(v[a] == rest[a - 1]);
                }
            }
            assert forall|a: int, b: int| 0 <= a < b < v.len() implies #[trigger] v[a] < #[trigger] v[b] by {
                assert(v[b] == rest[b - 1]);
                if a > 0 {
                    assert(v[a] == rest[a - 1]);
                }
            }
        } else {
            assert(vis_from(es, cs, i, skip) == vis_from(es, cs, i + 1, skip));
        }
    }
}

/// With no folder collapsed, every entry is visible.
pub proof fn lemma_all_visible(es: Seq<FileEntry>, cs: Seq<Seq<char>>, i: int)
    requires
        0 <= i <= es.len(),
        es.len() <= usize::MAX,
        forall|k: int| 0 <= k < es.len() ==> !((#[trigger] es[k]).is_dir && cs.contains(es[k].path@)),
    ensures
        vis_from(es, cs, i, None) == Seq::new((es.len() - i) as nat, |k: int| (i + k) as usize),
    decreases es.len() - i,
{
    if i < es.len() {
        lemma_all_visible(es, cs, i + 1);
        assert(!(es[i].is_dir && cs.contains(es[i].path@)));
        assert(vis_from(es, cs, i, None) =~= Seq::new((es.len() - i) as nat, |k: int| (i + k) as usize));
    } else {
        assert(vis_from(es, cs, i, None) =~= Seq::new((es.len() - i) as nat, |k: int| (i + k) as usize));
    }
}

/// Toggling the same folder twice leaves the same folders collapsed.
pub proof fn lemma_toggle_twice(c: Seq<Seq<char>>, p: Seq<char>, x: Seq<char>)
    ensures
        toggled(toggled(c, p), p).contains(x) == c.contains(x),
{
    if c.contains(p) {
        lemma_without_contains(c, p, x);
        lemma_without_contains(c, p, p);
        lemma_contains_push(without(c, p), p, x);
    } else {
        lemma_contains_push(c, p, x);
        lemma_contains_push(c, p, p);
        lemma_without_contains(c.push(p), p, x);
    }
}

proof fn lemma_position_at(s: Seq<usize>, x: usize)
    ensures
        position_of(s, x) matches Some(p) ==> 0 <= p < s.len() && s[p] == x,
    decreases s.len(),
{
    if s.len() > 0 && s[0] != x {
        lemma_position_at(s.drop_first(), x);
    }
}

proof fn lemma_position_increasing(s: Seq<usize>, k: int)
    requires
        0 <= k < s.len(),
        forall|a: int, b: int| 0 <= a < b < s.len() ==> #[trigger] s[a] < #[trigger] s[b],
    ensures
        position_of(s, s[k]) == Some(k),
    decreases s.len(),
{
    if k > 0 {
        assert(s[0] < s[k]);
        let t = s.drop_first();
        assert forall|a: int, b: int| 0 <= a < b < t.len() implies #[trigger] t[a] < #[trigger] t[b] by {
            assert(t[a] == s[a + 1] && t[b] == s[b + 1]);
        }
        lemma_position_increasing(t, k - 1);
        assert(t[k - 1] == s[k]);
    }
}

/// Moving the selection down and then up comes back to where it was, when
/// the selected entry is visible and not the last visible one (the moves
/// change neither the entries nor the collapsed folders).
pub proof fn lemma_down_then_up(t: FileTree)
    requires
        position_of(visible_spec(t), t.selected) matches Some(p) && p + 1 < visible_spec(t).len(),
    ensures
        selection_up(visible_spec(t), selection_down(visible_spec(t), t.selected)) == t.selected,
{
    let vis = visible_spec(t);
    assert(t.entries@.len() == t.entries.len());
    lemma_visible_ordered(t.entries@, views(t.collapsed@), 0, None);
    lemma_position_at(vis, t.selected);
    let p = position_of(vis, t.selected)->0;
    lemma_position_increasing(vis, p + 1);
}

/// Toggling a folder changes the set of collapsed folders by exactly that
/// folder (it leaves the set if it was in it, and joins it otherwise), and
/// toggling it again gives back the set it started from.
pub proof fn lemma_toggle_set(c: Seq<Seq<char>>, p: Seq<char>)
    ensures
        toggled(c, p).to_set() == (if c.contains(p) {
            c.to_set().remove(p)
        } else {
            c.to_set().insert(p)
        }),
        toggled(toggled(c, p), p).to_set() == c.to_set(),
{
    assert forall|x: Seq<char>| #[trigger] toggled(c, p).contains(x) == (if x == p {
        !c.contains(p)
    } else {
        c.contains(x)
    }) by {
        if c.contains(p) {
            lemma_without_contains(c, p, x);
        } else {
            lemma_contains_push(c, p, x);
        }
    }
    assert forall|x: Seq<char>| #[trigger] toggled(toggled(c, p), p).contains(x) == c.contains(x) by {
        lemma_toggle_twice(c, p, x);
    }
    assert(toggled(c, p).to_set() =~= (if c.contains(p) {
        c.to_set().remove(p)
    } else {
        c.to_set().insert(p)
    }));
    assert(toggled(toggled(c, p), p).to_set() =~= c.to_set());
}

/// No entry is visible twice: the visible indices of a tree are distinct.
pub proof fn lemma_visible_distinct(t: FileTree)
    ensures
        forall|a: int, b: int|
            0 <= a < visible_spec(t).len() && 0 <= b < visible_spec(t).len() && a != b ==> #[trigger] visible_spec(t)[a]
                != #[trigger] visible_spec(t)[b],
{
    assert(t.entries@.len() == t.entries.len());
    lemma_visible_ordered(t.entries@, views(t.collapsed@), 0, None);
    let vis = visible_spec(t);
    assert forall|a: int, b: int|
        0 <= a < vis.len() && 0 <= b < vis.len() && a != b implies #[trigger] vis[a] != #[trigger] vis[b] by {
        if a < b {
            assert(vis[a] < vis[b]);
        } else {
            assert(vis[b] < vis[a]);
        }
    }
}

/// Entry `j` is a collapsed folder and entry `m` lies inside it: every
/// entry after `j` up to `m` is deeper than `j`.
pub open spec fn inside_collapsed(es: Seq<FileEntry>, cs: Seq<Seq<char>>, j: int, m: int) -> bool {
    &&& es[j].is_dir
    &&& cs.contains(es[j].path@)
    &&& forall|k: int| j < k <= m ==> (#[trigger] es[k]).depth > es[j].depth
}

/// Entry `m` is hidden when the walk starts at `i` with `skip`: it is still
/// inside the folder at depth `skip` that hides the entries from `i` on, or
/// inside a collapsed folder at or after `i`.
spec fn hidden_from(es: Seq<FileEntry>, cs: Seq<Seq<char>>, i: int, skip: Option<usize>, m: int) -> bool {
    ||| (skip matches Some(d) && forall|k: int| i <= k <= m ==> (#[trigger] es[k]).depth > d)
    ||| exists|j: int| i <= j < m && #[trigger] inside_collapsed(es, cs, j, m)
}

proof fn lemma_vis_from_hidden(es: Seq<FileEntry>, cs: Seq<Seq<char>>, i: int, skip: Option<usize>, m: int)
    requires
        0 <= i <= m < es.len(),
        es.len() <= usize::MAX,
    ensures
        vis_from(es, cs, i, skip).contains(m as usize) <==> !hidden_from(es, cs, i, skip, m),
    decreases es.len() - i,
{
    let e = es[i];
    let hidden = match skip {
        Some(d) => e.depth > d,
        None => false,
    };
    let ns = if e.is_dir && cs.contains(e.path@) {
        Some(e.depth)
    } else {
        None
    };
    lemma_visible_ordered(es, cs, i + 1, skip);
    lemma_visible_ordered(es, cs, i + 1, ns);
    let v = vis_from(es, cs, i, skip);
    if m == i {
        if hidden {
            assert(v == vis_from(es, cs, i + 1, skip));
            if v.contains(m as usize) {
                let a = choose|a: int| 0 <= a < v.len() && v[a] == m as usize;
                assert(i + 1 <= v[a]);
            }
            assert(hidden_from(es, cs, i, skip, m));
        } else {
            assert(v == seq![i as usize] + vis_from(es, cs, i + 1, ns));
            assert(v[0] == m as usize);
            if hidden_from(es, cs, i, skip, m) {
                match skip {
                    Some(d) => {
                        if forall|k: int| i <= k <= m ==> (#[trigger] es[k]).depth > d {
                            assert(es[i].depth > d);
                        }
                    },
                    None => {},
                }
                assert(!exists|j: int| i <= j < m && #[trigger] inside_collapsed(es, cs, j, m));
            }
        }
    } else {
        if hidden {
            assert(v == vis_from(es, cs, i + 1, skip));
            lemma_vis_from_hidden(es, cs, i + 1, skip, m);
            let d = skip->0;
            if hidden_from(es, cs, i, skip, m) {
                if !(forall|k: int| i <= k <= m ==> (#[trigger] es[k]).depth > d) {
                    let j = choose|j: int| i <= j < m && #[trigger] inside_collapsed(es, cs, j, m);
                    if j == i {
                        assert forall|k: int| i + 1 <= k <= m implies (#[trigger] es[k]).depth > d by {
                            assert(es[k].depth > es[i].depth);
                        }
                    } else {
                        assert(inside_collapsed(es, cs, j, m));
                    }
                } else {
                    assert forall|k: int| i + 1 <= k <= m implies (#[trigger] es[k]).depth > d by {
                        assert(i <= k <= m);
                    }
                }
                assert(hidden_from(es, cs, i + 1, skip, m));
            }
            if hidden_from(es, cs, i + 1, skip, m) {
                if forall|k: int| i + 1 <= k <= m ==> (#[trigger] es[k]).depth > d {
                    assert forall|k: int| i <= k <= m implies (#[trigger] es[k]).depth > d by {
                        if k > i {
                            assert(i + 1 <= k <= m);
                        }
                    }
                } else {
                    let j = choose|j: int| i + 1 <= j < m && #[trigger] inside_collapsed(es, cs, j, m);
                    assert(inside_collapsed(es, cs, j, m));
                }
                assert(hidden_from(es, cs, i, skip, m));
            }
        } else {
            let rest = vis_from(es, cs, i + 1, ns);
            assert(v == seq![i as usize] + rest);
            lemma_vis_from_hidden(es, cs, i + 1, ns, m);
            assert(v.contains(m as usize) <==> rest.contains(m as usize)) by {
                if v.contains(m as usize) {
                    let a = choose|a: int| 0 <= a < v.len() && v[a] == m as usize;
                    assert(a > 0);
                    assert(rest[a - 1] == m as usize);
                }
                if rest.contains(m as usize) {
                    let a = choose|a: int| 0 <= a < rest.len() && rest[a] == m as usize;
                    assert(v[a + 1] == m as usize);
                }
            }
            if hidden_from(es, cs, i, skip, m) {
                match skip {
                    Some(d) => {
                        if forall|k: int| i <= k <= m ==> (#[trigger] es[k]).depth > d {
                            assert(es[i].depth > d);
                        }
                    },
                    None => {},
                }
                let j = choose|j: int| i <= j < m && #[trigger] inside_collapsed(es, cs, j, m);
                if j == i {
                    assert forall|k: int| i + 1 <= k <= m implies (#[trigger] es[k]).depth > es[i].depth by {
                        assert(i < k <= m);
                    }
                } else {
                    assert(inside_collapsed(es, cs, j, m));
                }
                assert(hidden_from(es, cs, i + 1, ns, m));
            }
            if hidden_from(es, cs, i + 1, ns, m) {
                if ns matches Some(d) && forall|k: int| i + 1 <= k <= m ==> (#[trigger] es[k]).depth > d {
                    assert(inside_collapsed(es, cs, i, m));
                } else {
                    let j = choose|j: int| i + 1 <= j < m && #[trigger] inside_collapsed(es, cs, j, m);
                    assert(inside_collapsed(es, cs, j, m));
                }
                assert(hidden_from(es, cs, i, skip, m));
            }
        }
    }
}

/// An entry of the tree is visible exactly when no collapsed folder before
/// it contains it (a folder contains the entries after it that are deeper,
/// up to the first that is not); collapsing a folder hides what lies inside
/// it and nothing else.
pub proof fn lemma_visible_iff_not_inside_collapsed(t: FileTree, m: int)
    requires
        0 <= m < t.entries@.len(),
    ensures
        visible_spec(t).contains(m as usize) <==> !exists|j: int|
            0 <= j < m && #[trigger] inside_collapsed(t.entries@, views(t.collapsed@), j, m),
{
    assert(t.entries@.len() == t.entries.len());
    lemma_vis_from_hidden(t.entries@, views(t.collapsed@), 0, None, m);
}

} // verus!
