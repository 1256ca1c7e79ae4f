//! Filesystem paths of the configuration, built with `std::path`.

use std::path::PathBuf;
use vstd::prelude::*;

verus! {

/// `std::path::PathBuf`, carried as an opaque value.
#[verifier::external_type_specification]
#[verifier::external_body]
pub struct ExPathBuf(PathBuf);

/// The path that `PathBuf::from` makes of a string.
pub uninterp spec fn path_of(s: Seq<char>) -> PathBuf;

/// The path that `Path::join` makes of `base` followed by `tail`.
pub uninterp spec fn joined_path(base: PathBuf, tail: Seq<char>) -> PathBuf;

/// Calls `PathBuf::from` on a string; the result depends on the string alone
/// and is named `path_of`.
#[verifier::external_body]
pub(crate) fn path_from(s: String) -> (p: PathBuf)
    ensures
        p == path_of(s@),
{
    PathBuf::from(s)
}

/// Calls `Path::join`; the result depends on its two arguments alone and is
/// named `joined_path`.
#[verifier::external_body]
pub(crate) fn path_join(base: &PathBuf, tail: &str) -> (p: PathBuf)
    ensures
        p == joined_path(*base, tail@),
{
    base.join(tail)
}

/// The texts of a list of strings.
pub open spec fn texts(v: Vec<String>) -> Seq<Seq<char>> {
    v@.map_values(|t: String| t@)
}

/// The paths of a list of strings, in order.
pub open spec fn paths_of(texts: Seq<Seq<char>>) -> Seq<PathBuf> {
    texts.map_values(|t: Seq<char>| path_of(t))
}

/// The path of each string, in order.
pub fn paths_from(list: &Vec<String>) -> (r: Vec<PathBuf>)
    ensures
        r@ == paths_of(texts(*list)),
{
    let ghost texts = texts(*list);
    let mut r: Vec<PathBuf> = Vec::new();
    let mut i: usize = 0;
    while i < list.len()
        invariant
            texts == crate::paths::texts(*list),
            0 <= i <= list@.len(),
            r@ == paths_of(texts.take(i as int)),
        decreases list@.len() - i,
    {
        let t = list[i].clone();
        let p = path_from(t);
        r.push(p);
        assert(texts.take(i + 1) == texts.take(i as int).push(texts[i as int]));
        i = i + 1;
        assert(r@ =~= paths_of(texts.take(i as int)));
    }
    assert(texts.take(i as int) =~= texts);
    r
}

} // verus!
