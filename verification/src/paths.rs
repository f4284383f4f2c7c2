//! Paths are carried as UTF-8 strings. Joining is the library's own
//! (Unix) rule; reading a path's parts goes through `std::path`.
use vstd::prelude::*;

use vstd::string::*;

use crate::text::string_push;

verus! {

/// `base` joined with `name` on Unix: an absolute `name` replaces `base`;
/// otherwise `name` is appended, after a `/` unless `base` is empty or
/// already ends with one.
pub open spec fn join_spec(base: Seq<char>, name: Seq<char>) -> Seq<char> {
    if name.len() > 0 && name[0] == '/' {
        name
    } else if base.len() > 0 && base.last() != '/' {
        base + seq!['/'] + name
    } else {
        base + name
    }
}

/// Joins `name` onto `base` as `Path::join` does on Unix.
pub fn join_path(base: &str, name: &str) -> (r: String)
    ensures
        r@ == join_spec(base@, name@),
{
    let b = crate::text::chars_of(base);
    let n = crate::text::chars_of(name);
    if n.len() > 0 && n[0] == '/' {
        return crate::text::string_of(&n);
    }
    let mut r = crate::text::string_of(&b);
    if b.len() > 0 && b[b.len() - 1] != '/' {
        string_push(&mut r, '/');
    }
    let mut i: usize = 0;
    let ghost prefix = r@;
    while i < n.len()
        invariant
            i <= n.len(),
            r@ == prefix + n@.take(i as int),
        decreases n.len() - i,
    {
        string_push(&mut r, n[i]);
        assert(n@.take(i + 1) =~= n@.take(i as int).push(n@[i as int]));
        i = i + 1;
    }
    assert(n@.take(n.len() as int) =~= n@);
    r
}

/// What `Path::file_name` gives for the path `p`: its last component, or
/// none when that is `..` or there is no component.
pub uninterp spec fn path_file_name(p: Seq<char>) -> Option<Seq<char>>;

/// The position of the last `.` in `n`, or -1 when there is none.
pub open spec fn last_dot(n: Seq<char>) -> int
    decreases n.len(),
{
    if n.len() == 0 {
        -1
    } else if n.last() == '.' {
        n.len() - 1
    } else {
        last_dot(n.drop_last())
    }
}

/// Whether the file name `n` splits at its last `.` into a stem and an
/// extension: it has a `.` after its first character.
pub open spec fn splits_at_dot(n: Seq<char>) -> bool {
    last_dot(n) > 0
}

/// What `Path::file_stem` gives for the path `p`: the file name up to its
/// last `.`; the whole file name when it has no `.` but at its start; none
/// without a file name.
pub open spec fn path_file_stem(p: Seq<char>) -> Option<Seq<char>> {
    match path_file_name(p) {
        Some(n) => if splits_at_dot(n) {
            Some(n.take(last_dot(n)))
        } else {
            Some(n)
        },
        None => None,
    }
}

/// What `Path::extension` gives for the path `p`: the file name after its
/// last `.`; none when it has no `.` but at its start, or there is no file
/// name.
pub open spec fn path_extension(p: Seq<char>) -> Option<Seq<char>> {
    match path_file_name(p) {
        Some(n) => if splits_at_dot(n) {
            Some(n.skip(last_dot(n) + 1))
        } else {
            None
        },
        None => None,
    }
}

/// What `Path::parent` gives for the path `p`.
pub uninterp spec fn path_parent(p: Seq<char>) -> Option<Seq<char>>;

/// What `Path::components` gives for the path `p`, each component as text.
pub uninterp spec fn path_components(p: Seq<char>) -> Seq<Seq<char>>;

/// A string view of an optional borrowed string.
pub open spec fn opt_view(o: Option<&str>) -> Option<Seq<char>> {
    match o {
        Some(s) => Some(s@),
        None => None,
    }
}

/// A string view of an optional owned string.
pub open spec fn opt_string_view(o: Option<String>) -> Option<Seq<char>> {
    match o {
        Some(s) => Some(s@),
        None => None,
    }
}

/// Whether the path `p` has the extension `md`.
pub fn has_md_extension(p: &str) -> (r: bool)
    ensures
        r == (path_extension(p@) == Some("md"@)),
{
    match extension_of(p) {
        Some(e) => {
            let ev = crate::text::chars_of(e);
            proof {
                reveal_strlit("md");
            }
            if ev.len() == 2 && ev[0] == 'm' && ev[1] == 'd' {
                assert(ev@ =~= "md"@);
                true
            } else {
                false
            }
        },
        None => false,
    }
}

/// `Path::file_name` of `p`, as text.
#[verifier::external_body]
pub(crate) fn file_name_of<'a>(p: &'a str) -> (r: Option<&'a str>)
    ensures
        opt_view(r) == path_file_name(p@),
{
    std::path::Path::new(p).file_name().and_then(|n| n.to_str())
}

/// `Path::file_stem` of `p`, as text: as its documentation says, the part
/// of the file name before its last `.`, or the whole file name when it has
/// no `.` or only a leading one.
#[verifier::external_body]
pub(crate) fn file_stem_of<'a>(p: &'a str) -> (r: Option<&'a str>)
    ensures
        opt_view(r) == path_file_stem(p@),
{
    std::path::Path::new(p).file_stem().and_then(|n| n.to_str())
}

/// `Path::extension` of `p`, as text: as its documentation says, the part
/// of the file name after its last `.`, none when it has no `.` or only a
/// leading one.
#[verifier::external_body]
pub(crate) fn extension_of<'a>(p: &'a str) -> (r: Option<&'a str>)
    ensures
        opt_view(r) == path_extension(p@),
{
    std::path::Path::new(p).extension().and_then(|n| n.to_str())
}

/// `Path::parent` of `p`, as text.
#[verifier::external_body]
pub(crate) fn parent_of<'a>(p: &'a str) -> (r: Option<&'a str>)
    ensures
        opt_view(r) == path_parent(p@),
{
    std::path::Path::new(p).parent().and_then(|n| n.to_str())
}

/// `Path::components` of `p`, each as text.
#[verifier::external_body]
pub(crate) fn components_of(p: &str) -> (r: Vec<String>)
    ensures
        r@.map_values(|s: String| s@) == path_components(p@),
{
    std::path::Path::new(p).components().map(|c| c.as_os_str().to_string_lossy().into_owned()).collect()
}

} // verus!
