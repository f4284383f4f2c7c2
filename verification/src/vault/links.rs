//! Wikilinks: `[[name]]` in a note's text names another note of the vault.
use vstd::prelude::*;

use crate::paths::{file_stem_of, has_md_extension, path_extension, path_file_stem};
use crate::text::{
    eq_ignore_ascii_case, eq_ignore_ascii_case_spec, lines_spec, split_lines, trim, trim_spec,
};

verus! {

/// The regular expression of a wikilink: `[[`, then a non-empty run of
/// characters other than `]` (the link's name, captured), then `]]`.
pub const WIKILINK_PATTERN: &'static str = "\\[\\[([^\\]]+)\\]\\]";

/// One match of a regular expression: its byte span in the searched text and
/// the text of its first capture group, when that group took part.
pub struct RegexMatch {
    pub start: usize,
    pub end: usize,
    pub group: Option<String>,
}

/// A match as plain values.
pub open spec fn match_view(m: RegexMatch) -> (nat, nat, Option<Seq<char>>) {
    (
        m.start as nat,
        m.end as nat,
        match m.group {
            Some(g) => Some(g@),
            None => None,
        },
    )
}

/// A list of matches as plain values.
pub open spec fn matches_view(ms: Seq<RegexMatch>) -> Seq<(nat, nat, Option<Seq<char>>)> {
    ms.map_values(|m: RegexMatch| match_view(m))
}

/// What `regex` gives for the pattern `pattern` over `haystack`: `None`
/// when the pattern does not compile, else the successive non-overlapping
/// matches that `Regex::captures_iter` yields, in order.
pub uninterp spec fn regex_captures(pattern: Seq<char>, haystack: Seq<char>) -> Option<
    Seq<(nat, nat, Option<Seq<char>>)>,
>;

/// `Regex::new(pattern)` and then `captures_iter(haystack)`: for each match,
/// the byte span of the whole match and the text of capture group 1. The
/// contract only names the result; the matching itself is the `regex` crate's.
#[verifier::external_body]
fn captures(pattern: &str, haystack: &str) -> (r: Option<Vec<RegexMatch>>)
    ensures
        match r {
            Some(v) => regex_captures(pattern@, haystack@) == Some(matches_view(v@)),
            None => regex_captures(pattern@, haystack@) is None,
        },
{
    let re = regex::Regex::new(pattern).ok()?;
    Some(
        re.captures_iter(haystack).map(|c| {
            let m = c.get(0).unwrap();
            RegexMatch { start: m.start(), end: m.end(), group: c.get(1).map(|g| g.as_str().to_string()) }
        }).collect(),
    )
}

/// The captured names of a list of matches, in order; a match whose group took
/// no part (which the wikilink pattern, whose group is not optional, never
/// yields) adds nothing.
pub open spec fn group_texts(ms: Seq<(nat, nat, Option<Seq<char>>)>) -> Seq<Seq<char>>
    decreases ms.len(),
{
    if ms.len() == 0 {
        seq![]
    } else {
        let rest = group_texts(ms.drop_last());
        match ms.last().2 {
            Some(g) => rest.push(g),
            None => rest,
        }
    }
}

/// The captured name of the first match whose span `start..=end` holds the
/// column `col`; none when no match does (or its group took no part).
pub open spec fn link_at(ms: Seq<(nat, nat, Option<Seq<char>>)>, col: nat) -> Option<Seq<char>>
    decreases ms.len(),
{
    if ms.len() == 0 {
        None
    } else if ms[0].0 <= col && col <= ms[0].1 {
        ms[0].2
    } else {
        link_at(ms.drop_first(), col)
    }
}

/// The wikilink names of a text, in order of appearance.
pub open spec fn wikilinks_spec(content: Seq<char>) -> Seq<Seq<char>> {
    match regex_captures(WIKILINK_PATTERN@, content) {
        Some(ms) => group_texts(ms),
        None => seq![],
    }
}

/// The names captured by the matches `ms`, in order.
pub fn names_of_matches(ms: &Vec<RegexMatch>) -> (r: Vec<String>)
    ensures
        crate::text::views(r@) == group_texts(matches_view(ms@)),
{
    let mut out: Vec<String> = Vec::new();
    let mut i: usize = 0;
    while i < ms.len()
        invariant
            i <= ms.len(),
            crate::text::views(out@) == group_texts(matches_view(ms@.take(i as int))),
        decreases ms.len() - i,
    {
        let ghost before = matches_view(ms@.take(i as int));
        proof {
            assert(matches_view(ms@.take(i + 1)).drop_last() =~= before);
        }
        match &ms[i].group {
            Some(g) => {
                out.push(g.clone());
                assert(crate::text::views(out@) =~= crate::text::views(out@).drop_last().push(g@));
            },
            None => {},
        }
        i = i + 1;
    }
    assert(ms@.take(ms.len() as int) =~= ms@);
    out
}

/// The name captured by the first of the matches `ms` whose span holds `col`.
pub fn link_at_column(ms: &Vec<RegexMatch>, col: usize) -> (r: Option<String>)
    ensures
        crate::paths::opt_string_view(r) == link_at(matches_view(ms@), col as nat),
{
    let mut i: usize = 0;
    assert(matches_view(ms@).skip(0) =~= matches_view(ms@));
    while i < ms.len()
        invariant
            i <= ms.len(),
            link_at(matches_view(ms@), col as nat) == link_at(matches_view(ms@).skip(i as int), col as nat),
        decreases ms.len() - i,
    {
        let ghost rest = matches_view(ms@).skip(i as int);
        assert(rest.drop_first() =~= matches_view(ms@).skip(i + 1));
        if ms[i].start <= col && col <= ms[i].end {
            return match &ms[i].group {
                Some(g) => Some(g.clone()),
                None => None,
            };
        }
        i = i + 1;
    }
    None
}

/// The names of the wikilinks in `content`, in order of appearance.
pub fn extract_wikilinks(content: &str) -> (r: Vec<String>)
    ensures
        crate::text::views(r@) == wikilinks_spec(content@),
{
    match captures(WIKILINK_PATTERN, content) {
        Some(ms) => names_of_matches(&ms),
        None => Vec::new(),
    }
}

/// The name of the wikilink under the cursor at `line`, `col`: the first link
/// on that line whose span, from its first `[` to just past its last `]`,
/// holds the column; none when the line does not exist.
pub open spec fn link_at_cursor_spec(content: Seq<char>, line: nat, col: nat) -> Option<Seq<char>> {
    let lines = lines_spec(content);
    if line < lines.len() {
        match regex_captures(WIKILINK_PATTERN@, lines[line as int]) {
            Some(ms) => link_at(ms, col),
            None => None,
        }
    } else {
        None
    }
}

/// The name of the wikilink under the cursor at `line`, `col` of `content`.
pub fn find_link_at_cursor(content: &str, line: usize, col: usize) -> (r: Option<String>)
    ensures
        crate::paths::opt_string_view(r) == link_at_cursor_spec(content@, line as nat, col as nat),
{
    let lines = split_lines(content);
    if line >= lines.len() {
        return None;
    }
    assert(lines@[line as int]@ == lines_spec(content@)[line as int]);
    match captures(WIKILINK_PATTERN, lines[line].as_str()) {
        Some(ms) => link_at_column(&ms, col),
        None => None,
    }
}

/// Whether the file at `path` is the target of a link named `link`: a `.md`
/// file whose stem equals the trimmed name, up to the case of ASCII letters.
pub open spec fn link_target_matches(path: Seq<char>, link: Seq<char>) -> bool {
    &&& path_extension(path) == Some("md"@)
    &&& match path_file_stem(path) {
        Some(stem) => eq_ignore_ascii_case_spec(stem, trim_spec(link)),
        None => false,
    }
}

/// Whether the file at `path` is the target of a link named `link`.
pub fn is_link_target(path: &str, link: &str) -> (r: bool)
    ensures
        r == link_target_matches(path@, link@),
{
    if !has_md_extension(path) {
        return false;
    }
    match file_stem_of(path) {
        Some(stem) => {
            let t = trim(link);
            eq_ignore_ascii_case(stem, t.as_str())
        },
        None => false,
    }
}

/// The first of the vault's files `candidates` (in walk order) that is the
/// target of the link named `link_name`.
pub fn resolve_link(candidates: &Vec<String>, link_name: &str) -> (r: Option<String>)
    ensures
        r is None <==> forall|i: int| 0 <= i < candidates@.len() ==> !link_target_matches(
            #[trigger] candidates@[i]@,
            link_name@,
        ),
        r is Some ==> exists|i: int|
            0 <= i < candidates@.len() && link_target_matches(#[trigger] candidates@[i]@, link_name@)
                && r->0@ == candidates@[i]@ && forall|j: int|
                0 <= j < i ==> !link_target_matches(#[trigger] candidates@[j]@, link_name@),
{
    let mut i: usize = 0;
    while i < candidates.len()
        invariant
            i <= candidates.len(),
            forall|j: int| 0 <= j < i ==> !link_target_matches(#[trigger] candidates@[j]@, link_name@),
        decreases candidates.len() - i,
    {
        if is_link_target(candidates[i].as_str(), link_name) {
            return Some(candidates[i].clone());
        }
        i = i + 1;
    }
    None
}

/// The link found under a cursor is one of the links of the line's matches.
pub proof fn lemma_link_at_is_a_link(ms: Seq<(nat, nat, Option<Seq<char>>)>, col: nat)
    ensures
        link_at(ms, col) matches Some(g) ==> group_texts(ms).contains(g),
    decreases ms.len(),
{
    if ms.len() > 0 {
        if ms[0].0 <= col && col <= ms[0].1 {
            if ms[0].2 is Some {
                lemma_group_texts_has(ms, 0);
            }
        } else {
            lemma_link_at_is_a_link(ms.drop_first(), col);
            if link_at(ms.drop_first(), col) is Some {
                lemma_group_texts_drop_first(ms, link_at(ms.drop_first(), col)->0);
            }
        }
    }
}

proof fn lemma_group_texts_has(ms: Seq<(nat, nat, Option<Seq<char>>)>, i: int)
    requires
        0 <= i < ms.len(),
        ms[i].2 is Some,
    ensures
        group_texts(ms).contains(ms[i].2->0),
    decreases ms.len(),
{
    let rest = group_texts(ms.drop_last());
    if i == ms.len() - 1 {
        assert(group_texts(ms).last() == ms[i].2->0);
        assert(group_texts(ms)[group_texts(ms).len() - 1] == ms[i].2->0);
    } else {
        assert(ms.drop_last()[i] == ms[i]);
        lemma_group_texts_has(ms.drop_last(), i);
        let k = choose|k: int| 0 <= k < rest.len() && rest[k] == ms[i].2->0;
        match ms.last().2 {
            Some(g) => assert(group_texts(ms)[k] == rest[k]),
            None => {},
        }
    }
}

proof fn lemma_group_texts_drop_first(ms: Seq<(nat, nat, Option<Seq<char>>)>, g: Seq<char>)
    requires
        ms.len() > 0,
        group_texts(ms.drop_first()).contains(g),
    ensures
        group_texts(ms).contains(g),
{
    let t = ms.drop_first();
    let k = choose|k: int| 0 <= k < group_texts(t).len() && group_texts(t)[k] == g;
    lemma_group_texts_index(t, k);
    let i = choose|i: int| 0 <= i < t.len() && t[i].2 == Some(g);
    assert(ms[i + 1] == t[i]);
    lemma_group_texts_has(ms, i + 1);
}

proof fn lemma_group_texts_index(ms: Seq<(nat, nat, Option<Seq<char>>)>, k: int)
    requires
        0 <= k < group_texts(ms).len(),
    ensures
        exists|i: int| 0 <= i < ms.len() && ms[i].2 == Some(group_texts(ms)[k]),
    decreases ms.len(),
{
    let rest = group_texts(ms.drop_last());
    match ms.last().2 {
        Some(g) => {
            if k == rest.len() {
                assert(ms[ms.len() - 1].2 == Some(g));
            } else {
                lemma_group_texts_index(ms.drop_last(), k);
                let i = choose|i: int| 0 <= i < ms.drop_last().len() && ms.drop_last()[i].2 == Some(rest[k]);
                assert(ms[i] == ms.drop_last()[i]);
            }
        },
        None => {
            lemma_group_texts_index(ms.drop_last(), k);
            let i = choose|i: int| 0 <= i < ms.drop_last().len() && ms.drop_last()[i].2 == Some(rest[k]);
            assert(ms[i] == ms.drop_last()[i]);
        },
    }
}

} // verus!
