//! Tilde expansion: a leading `~` component becomes a given home
//! directory; every other path passes through unchanged.

use vstd::prelude::*;

use crate::model::join_parts;
use crate::model::lemma_trim_slashes_at;
use crate::model::tilde_expanded;
use crate::model::tilde_prefixed;
use crate::model::trim_slashes;
use crate::parts::join_paths;
use crate::parts::trim_leading_slashes_index;

verus! {

/// Whether the first component of `path` is exactly `~`.
pub(crate) fn starts_with_tilde(path: &str) -> (r: bool)
    ensures
        r == tilde_prefixed(path@),
{
    let n = path.unicode_len();
    if n == 0 {
        false
    } else if path.get_char(0) != '~' {
        false
    } else if n == 1 {
        true
    } else {
        path.get_char(1) == '/'
    }
}

/// Expands a leading `~` in `path` to the given home directory.
///
/// - A path whose first component is not exactly `~` — a relative or
///   absolute path, or another user's `~name` — comes back unchanged.
/// - `~` alone, or `~` followed only by separators, becomes `home`.
/// - `~/rest` (with one or more separators after the `~`) becomes `home`
///   joined with `rest`; the separators at the boundary collapse to one,
///   and `rest` is otherwise kept verbatim — no canonicalization.
pub fn resolve_tilde_with_home(home: &str, path: &str) -> (r: String)
    ensures
        r@ == tilde_expanded(home@, path@),
{
    if !starts_with_tilde(path) {
        return path.to_owned();
    }
    let n = path.unicode_len();
    let i = trim_leading_slashes_index(path, 1);
    proof {
        assert(trim_slashes(path@.skip(1)) == path@.skip(i as int));
    }
    if i == n {
        proof {
            assert(path@.skip(i as int).len() == 0);
        }
        return home.to_owned();
    }
    let rest = path.substring_char(i, n);
    proof {
        assert(rest@ =~= path@.skip(i as int));
    }
    join_paths(home, rest)
}

/// Law: a path that does not begin with a `~` component is returned
/// unchanged by tilde expansion, whatever the home directory.
pub proof fn lemma_tilde_absent_unchanged(home: Seq<char>, path: Seq<char>)
    requires
        !tilde_prefixed(path),
    ensures
        tilde_expanded(home, path) == path,
{
}

/// Law: a path that is `~` followed by nothing but separators expands to
/// the home directory itself, unchanged.
pub proof fn lemma_bare_tilde(home: Seq<char>, path: Seq<char>)
    requires
        tilde_prefixed(path),
        forall|j: int| 1 <= j < path.len() ==> path[j] == '/',
    ensures
        tilde_expanded(home, path) == home,
{
    let rest = path.skip(1);
    assert forall|j: int| 0 <= j < rest.len() implies rest[j] == '/' by {
        assert(rest[j] == path[j + 1]);
    }
    lemma_trim_slashes_at(rest, rest.len() as int);
    assert(rest.skip(rest.len() as int) =~= Seq::<char>::empty());
}

/// Law: for a path with a `~` component followed by more than
/// separators, the `~` and every separator directly after it are
/// replaced by the home directory: the remainder is joined onto it.
pub proof fn lemma_tilde_with_path(home: Seq<char>, path: Seq<char>)
    requires
        tilde_prefixed(path),
        trim_slashes(path.skip(1)).len() > 0,
    ensures
        tilde_expanded(home, path) == join_parts(home, trim_slashes(path.skip(1))),
{
}

} // verus!
