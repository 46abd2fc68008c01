//! The mathematical model of path resolution.
//!
//! A path is modelled as its sequence of characters. `/` is the separator;
//! a path is absolute exactly when it starts with one. These functions
//! define what every executable function of the crate returns.

use vstd::prelude::*;

use crate::errors::ResolveError;

verus! {

/// True when `s` is an absolute path: it starts with a separator.
pub open spec fn is_abs(s: Seq<char>) -> bool {
    s.len() > 0 && s[0] == '/'
}

/// True when the first component of `s` is exactly `~`: the path is `~`
/// alone, or `~` followed by a separator. A path such as `~user` does not
/// qualify: its first component is `~user`, another user's home, which
/// this crate leaves untouched.
pub open spec fn tilde_prefixed(s: Seq<char>) -> bool {
    s.len() > 0 && s[0] == '~' && (s.len() == 1 || s[1] == '/')
}

/// `s` with every leading separator removed.
pub open spec fn trim_slashes(s: Seq<char>) -> Seq<char>
    decreases s.len(),
{
    if s.len() > 0 && s[0] == '/' {
        trim_slashes(s.skip(1))
    } else {
        s
    }
}

/// `s` with its leading `.` segments (and the separators around them)
/// removed: `./x` becomes `x`, `.` alone becomes empty. Interior segments,
/// `..` included, are untouched: this is not canonicalization.
pub open spec fn strip_dot_prefix(s: Seq<char>) -> Seq<char>
    decreases s.len(),
{
    if s.len() > 0 && s[0] == '/' {
        strip_dot_prefix(s.skip(1))
    } else if s.len() > 0 && s[0] == '.' && (s.len() == 1 || s[1] == '/') {
        if s.len() == 1 {
            Seq::empty()
        } else {
            strip_dot_prefix(s.skip(2))
        }
    } else {
        s
    }
}

/// `rel` appended to `base` with exactly one separator between them, and
/// no separator added when either side makes it redundant.
pub open spec fn join_parts(base: Seq<char>, rel: Seq<char>) -> Seq<char> {
    if rel.len() == 0 {
        base
    } else if base.len() == 0 {
        rel
    } else if base.last() == '/' {
        base + rel
    } else {
        base + seq!['/'] + rel
    }
}

/// What tilde expansion returns: a path whose first component is `~` has
/// the `~` and every separator directly after it replaced by the home
/// directory; any other path is returned unchanged.
pub open spec fn tilde_expanded(home: Seq<char>, path: Seq<char>) -> Seq<char> {
    if tilde_prefixed(path) {
        let rest = trim_slashes(path.skip(1));
        if rest.len() == 0 {
            home
        } else {
            join_parts(home, rest)
        }
    } else {
        path
    }
}

/// `s` with every trailing separator removed.
pub open spec fn rtrim_slashes(s: Seq<char>) -> Seq<char>
    decreases s.len(),
{
    if s.len() > 0 && s.last() == '/' {
        rtrim_slashes(s.drop_last())
    } else {
        s
    }
}

/// `s` with its trailing run of non-separator characters removed.
pub open spec fn drop_last_seg(s: Seq<char>) -> Seq<char>
    decreases s.len(),
{
    if s.len() > 0 && s.last() != '/' {
        drop_last_seg(s.drop_last())
    } else {
        s
    }
}

/// The parent directory of `s`: the path without its last component.
/// The root has none; a path whose only component sits directly under the
/// root has the root as its parent.
pub open spec fn parent_dir(s: Seq<char>) -> Option<Seq<char>> {
    let t = rtrim_slashes(s);
    if t.len() == 0 {
        None
    } else {
        let p = rtrim_slashes(drop_last_seg(t));
        if p.len() == 0 {
            Some(seq!['/'])
        } else {
            Some(p)
        }
    }
}

/// The absolute form of a base path: an absolute base is used as given;
/// a relative base is tilde-expanded, which needs a home directory, and
/// is rejected when still relative afterwards.
pub open spec fn base_resolved(base: Seq<char>, home: Option<Seq<char>>) -> Result<
    Seq<char>,
    ResolveError,
> {
    if is_abs(base) {
        Ok(base)
    } else {
        match home {
            None => Err(ResolveError::HomeNotFound),
            Some(h) => {
                let rb = tilde_expanded(h, base);
                if is_abs(rb) {
                    Ok(rb)
                } else {
                    Err(ResolveError::InvalidBase)
                }
            },
        }
    }
}

/// A relative candidate joined onto a base directory: its leading `.`
/// segments drop away, everything else is kept verbatim.
pub open spec fn joined_onto(base_dir: Seq<char>, candidate: Seq<char>) -> Seq<char> {
    join_parts(base_dir, strip_dot_prefix(candidate))
}

/// The last step of resolution, once the file system has said whether the
/// absolute base names a regular file. A file base is replaced by its
/// parent directory; a base that is a directory, or that the file system
/// could not classify, is used as it stands.
pub open spec fn finish_model(
    candidate: Seq<char>,
    base_dir: Seq<char>,
    base_is_file: bool,
) -> Result<Seq<char>, ResolveError> {
    if base_is_file {
        match parent_dir(base_dir) {
            None => Err(ResolveError::NoParentDirectory),
            Some(d) => Ok(joined_onto(d, candidate)),
        }
    } else {
        Ok(joined_onto(base_dir, candidate))
    }
}

/// The whole resolution of a candidate against a base path. `home` is the
/// home directory, when one is known; `base_is_file` is the file system's
/// answer to whether the resolved base names a regular file (`false` both
/// for a directory and for a base the file system could not classify).
pub open spec fn resolve_model(
    candidate: Seq<char>,
    base: Seq<char>,
    home: Option<Seq<char>>,
    base_is_file: bool,
) -> Result<Seq<char>, ResolveError> {
    if is_abs(candidate) {
        Ok(candidate)
    } else if tilde_prefixed(candidate) {
        match home {
            None => Err(ResolveError::HomeNotFound),
            Some(h) => Ok(tilde_expanded(h, candidate)),
        }
    } else {
        match base_resolved(base, home) {
            Err(e) => Err(e),
            Ok(ab) => finish_model(candidate, ab, base_is_file),
        }
    }
}

/// Resolution against the process working directory: it fails when no
/// working directory is available, and otherwise uses it as the base
/// directory.
pub open spec fn resolve_cwd_model(
    candidate: Seq<char>,
    cwd: Option<Seq<char>>,
    home: Option<Seq<char>>,
) -> Result<Seq<char>, ResolveError> {
    match cwd {
        None => Err(ResolveError::CwdUnavailable),
        Some(c) => resolve_model(candidate, c, home, false),
    }
}

/// When the first `k` characters of `s` are separators and the character
/// at `k`, if any, is not, trimming leading separators drops exactly `k`
/// characters.
pub proof fn lemma_trim_slashes_at(s: Seq<char>, k: int)
    requires
        0 <= k <= s.len(),
        forall|j: int| 0 <= j < k ==> s[j] == '/',
        k == s.len() || s[k] != '/',
    ensures
        trim_slashes(s) == s.skip(k),
    decreases k,
{
    if k == 0 {
        assert(s.skip(0) =~= s);
    } else {
        let t = s.skip(1);
        assert forall|j: int| 0 <= j < k - 1 implies t[j] == '/' by {
            assert(t[j] == s[j + 1]);
        }
        lemma_trim_slashes_at(t, k - 1);
        assert(t.skip(k - 1) =~= s.skip(k));
    }
}

/// When the characters of `s` from `e` on are separators and the one just
/// before `e`, if any, is not, trimming trailing separators keeps exactly
/// the first `e` characters.
pub proof fn lemma_rtrim_slashes_at(s: Seq<char>, e: int)
    requires
        0 <= e <= s.len(),
        forall|j: int| e <= j < s.len() ==> s[j] == '/',
        e == 0 || s[e - 1] != '/',
    ensures
        rtrim_slashes(s) == s.take(e),
    decreases s.len() - e,
{
    if e == s.len() {
        assert(s.take(e) =~= s);
    } else {
        let t = s.drop_last();
        assert(s.last() == '/');
        assert forall|j: int| e <= j < t.len() implies t[j] == '/' by {
            assert(t[j] == s[j]);
        }
        lemma_rtrim_slashes_at(t, e);
        assert(t.take(e) =~= s.take(e));
    }
}

/// When the characters of `s` from `j` on are not separators and the one
/// just before `j`, if any, is, dropping the trailing segment keeps
/// exactly the first `j` characters.
pub proof fn lemma_drop_last_seg_at(s: Seq<char>, k: int)
    requires
        0 <= k <= s.len(),
        forall|j: int| k <= j < s.len() ==> s[j] != '/',
        k == 0 || s[k - 1] == '/',
    ensures
        drop_last_seg(s) == s.take(k),
    decreases s.len() - k,
{
    if k == s.len() {
        assert(s.take(k) =~= s);
    } else {
        let t = s.drop_last();
        assert(s.last() != '/');
        assert forall|j: int| k <= j < t.len() implies t[j] != '/' by {
            assert(t[j] == s[j]);
        }
        lemma_drop_last_seg_at(t, k);
        assert(t.take(k) =~= s.take(k));
    }
}

} // verus!
