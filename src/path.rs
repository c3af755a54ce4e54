//! Paths as the conversation shows them: relative to the worktree where possible.
use vstd::prelude::*;
use crate::text::{chars_of, has_prefix, matches_at, slice};

verus! {

/// `p` relative to `w`: the part of `p` after the directory `w`, or `p` itself when `p` does
/// not lie under `w`.
pub open spec fn rel_path(p: Seq<char>, w: Seq<char>) -> Seq<char> {
    if w.len() > 0 && has_prefix(p, w) && (p.len() == w.len() || p[w.len() as int] == '/' || w.last()
        == '/') {
        let rest = p.subrange(w.len() as int, p.len() as int);
        if rest.len() > 0 && rest[0] == '/' {
            rest.subrange(1, rest.len() as int)
        } else {
            rest
        }
    } else {
        p
    }
}

pub fn make_path_relative(path: &str, worktree: &str) -> (r: String)
    ensures
        r@ == rel_path(path@, worktree@),
{
    let pv = chars_of(path);
    let wv = chars_of(worktree);
    if wv.len() > 0 && matches_at(&pv, &wv, 0) && (pv.len() == wv.len() || pv[wv.len()] == '/'
        || wv[wv.len() - 1] == '/') {
        let a = wv.len();
        if a < pv.len() && pv[a] == '/' {
            slice(path, a + 1, pv.len())
        } else {
            slice(path, a, pv.len())
        }
    } else {
        String::from_str(path)
    }
}

} // verus!
