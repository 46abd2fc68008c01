//! Executable operations on path text: absoluteness, joining, leading
//! `.` segments, parent directories. Each one implements the spec
//! function of the same matter from [`crate::model`].

use vstd::prelude::*;

use crate::model::is_abs;
use crate::model::join_parts;
use crate::model::lemma_drop_last_seg_at;
use crate::model::lemma_rtrim_slashes_at;
use crate::model::lemma_trim_slashes_at;
use crate::model::parent_dir;
use crate::model::strip_dot_prefix;
use crate::model::trim_slashes;

verus! {

/// Whether `s` is an absolute path.
pub(crate) fn is_absolute_path(s: &str) -> (r: bool)
    ensures
        r == is_abs(s@),
{
    let n = s.unicode_len();
    if n == 0 {
        false
    } else {
        s.get_char(0) == '/'
    }
}

/// `rel` joined onto `base` with a single separator between them.
pub(crate) fn join_paths(base: &str, rel: &str) -> (r: String)
    ensures
        r@ == join_parts(base@, rel@),
{
    let bn = base.unicode_len();
    let rn = rel.unicode_len();
    if rn == 0 {
        return base.to_owned();
    }
    if bn == 0 {
        return rel.to_owned();
    }
    let mut out = base.to_owned();
    if base.get_char(bn - 1) != '/' {
        out.append("/");
        proof {
            reveal_strlit("/");
            assert("/"@ =~= seq!['/']);
        }
    }
    out.append(rel);
    proof {
        if base@.last() == '/' {
            assert(out@ =~= base@ + rel@);
        } else {
            assert(out@ =~= base@ + seq!['/'] + rel@);
        }
    }
    out
}

/// `s` without its leading `.` segments: `./x` becomes `x`, `.` alone
/// becomes empty, anything else is returned as it stands.
pub(crate) fn strip_dot_segments<'a>(s: &'a str) -> (r: &'a str)
    ensures
        r@ == strip_dot_prefix(s@),
{
    let n = s.unicode_len();
    let mut i: usize = 0;
    proof {
        assert(s@.skip(0) =~= s@);
    }
    loop
        invariant
            i <= n,
            n == s@.len(),
            strip_dot_prefix(s@) == strip_dot_prefix(s@.skip(i as int)),
        decreases n - i,
    {
        if i < n && s.get_char(i) == '/' {
            proof {
                assert(s@.skip(i as int)[0] == s@[i as int]);
                assert(s@.skip(i as int).skip(1) =~= s@.skip(i as int + 1));
            }
            i = i + 1;
        } else if i < n && s.get_char(i) == '.' {
            if i + 1 == n {
                proof {
                    assert(s@.skip(i as int).len() == 1);
                    assert(s@.skip(i as int)[0] == '.');
                    reveal_strlit("");
                    assert(""@ =~= Seq::<char>::empty());
                }
                return "";
            } else if s.get_char(i + 1) == '/' {
                proof {
                    assert(s@.skip(i as int)[0] == '.');
                    assert(s@.skip(i as int)[1] == s@[i as int + 1]);
                    assert(s@.skip(i as int).skip(2) =~= s@.skip(i as int + 2));
                }
                i = i + 2;
            } else {
                proof {
                    assert(s@.skip(i as int)[0] == '.');
                    assert(s@.skip(i as int)[1] == s@[i as int + 1]);
                    assert(strip_dot_prefix(s@.skip(i as int)) == s@.skip(i as int));
                }
                let r = s.substring_char(i, n);
                proof {
                    assert(r@ =~= s@.skip(i as int));
                }
                return r;
            }
        } else {
            proof {
                if i < n {
                    assert(s@.skip(i as int)[0] == s@[i as int]);
                } else {
                    assert(s@.skip(i as int).len() == 0);
                }
                assert(strip_dot_prefix(s@.skip(i as int)) == s@.skip(i as int));
            }
            let r = s.substring_char(i, n);
            proof {
                assert(r@ =~= s@.skip(i as int));
            }
            return r;
        }
    }
}

/// The parent directory of `s`, or `None` when `s` is the root (or
/// empty). Mirrors how the standard path type drops a final component:
/// trailing separators are ignored, the last component is removed, and a
/// single component directly under the root has the root as its parent.
pub(crate) fn parent_of<'a>(s: &'a str) -> (r: Option<&'a str>)
    ensures
        match parent_dir(s@) {
            Some(p) => r matches Some(q) && q@ == p,
            None => r is None,
        },
{
    let n = s.unicode_len();
    let mut e: usize = n;
    while e > 0 && s.get_char(e - 1) == '/'
        invariant
            e <= n,
            n == s@.len(),
            forall|j: int| e <= j < n ==> s@[j] == '/',
        decreases e,
    {
        e = e - 1;
    }
    proof {
        lemma_rtrim_slashes_at(s@, e as int);
    }
    if e == 0 {
        return None;
    }
    let ghost t = s@.take(e as int);
    let mut j: usize = e;
    while j > 0 && s.get_char(j - 1) != '/'
        invariant
            j <= e,
            e <= n,
            n == s@.len(),
            forall|i: int| j <= i < e ==> s@[i] != '/',
        decreases j,
    {
        j = j - 1;
    }
    proof {
        assert forall|i: int| j <= i < t.len() implies t[i] != '/' by {
            assert(t[i] == s@[i]);
        }
        lemma_drop_last_seg_at(t, j as int);
        assert(t.take(j as int) =~= s@.take(j as int));
    }
    let ghost u = s@.take(j as int);
    let mut p: usize = j;
    while p > 0 && s.get_char(p - 1) == '/'
        invariant
            p <= j,
            j <= n,
            n == s@.len(),
            forall|i: int| p <= i < j ==> s@[i] == '/',
        decreases p,
    {
        p = p - 1;
    }
    proof {
        assert forall|i: int| p <= i < u.len() implies u[i] == '/' by {
            assert(u[i] == s@[i]);
        }
        lemma_rtrim_slashes_at(u, p as int);
        assert(u.take(p as int) =~= s@.take(p as int));
    }
    if p == 0 {
        proof {
            reveal_strlit("/");
            assert("/"@ =~= seq!['/']);
        }
        Some("/")
    } else {
        let r = s.substring_char(0, p);
        proof {
            assert(r@ =~= s@.take(p as int));
        }
        Some(r)
    }
}

/// Scans past the run of separators that starts at `start` and returns
/// the index of the first character after it, so that the rest of `s`
/// from there is `trim_slashes` of the rest of `s` from `start`.
pub(crate) fn trim_leading_slashes_index(s: &str, start: usize) -> (i: usize)
    requires
        start <= s@.len(),
    ensures
        start <= i <= s@.len(),
        trim_slashes_from(s@, start as int) == s@.skip(i as int),
{
    let n = s.unicode_len();
    let mut i: usize = start;
    while i < n && s.get_char(i) == '/'
        invariant
            start <= i <= n,
            n == s@.len(),
            forall|j: int| start <= j < i ==> s@[j] == '/',
        decreases n - i,
    {
        i = i + 1;
    }
    proof {
        let rest = s@.skip(start as int);
        assert forall|j: int| 0 <= j < i - start implies rest[j] == '/' by {
            assert(rest[j] == s@[j + start]);
        }
        if i < n {
            assert(rest[i - start] == s@[i as int]);
        }
        lemma_trim_slashes_at(rest, i - start);
        assert(rest.skip(i - start) =~= s@.skip(i as int));
    }
    i
}

/// Leading separators of `s` trimmed, starting at position `k`.
pub(crate) open spec fn trim_slashes_from(s: Seq<char>, k: int) -> Seq<char> {
    trim_slashes(s.skip(k))
}

} // verus!
