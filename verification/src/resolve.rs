//! The base resolver: anchors a candidate path to a base directory.
//!
//! Resolution consults the file system for one fact only — whether the
//! resolved absolute base names a regular file. [`try_resolve_in_step`]
//! carries the work up to the point where that fact is needed, and
//! [`try_resolve_in_classified`] finishes once it is known, so a caller
//! can place its metadata query between the two. A caller that already
//! knows the answer (a test, or one content to treat the base as a
//! directory) uses [`try_resolve_in_with`].

use vstd::prelude::*;

use crate::errors::ResolveError;
use crate::model::base_resolved;
use crate::model::finish_model;
use crate::model::is_abs;
use crate::model::join_parts;
use crate::model::resolve_cwd_model;
use crate::model::resolve_model;
use crate::model::strip_dot_prefix;
use crate::model::tilde_expanded;
use crate::model::tilde_prefixed;
use crate::parts::is_absolute_path;
use crate::parts::join_paths;
use crate::parts::parent_of;
use crate::parts::strip_dot_segments;
use crate::tilde::resolve_tilde_with_home;
use crate::tilde::starts_with_tilde;

verus! {

/// How far resolution got without the file system.
#[derive(Debug)]
pub enum ResolveStep {
    /// Resolution is complete; this is the result.
    Done(String),
    /// The candidate must be joined onto this absolute base, but which
    /// directory to join onto depends on whether the base names a
    /// regular file: ask the file system, then call
    /// [`try_resolve_in_classified`] with the answer.
    ClassifyBase(String),
}

/// Carries resolution of `candidate` against `base` to the point where
/// the file system would be consulted.
///
/// An absolute candidate, and a tilde candidate (given a home
/// directory), resolve outright to [`ResolveStep::Done`]; the base plays
/// no role for them. A relative candidate needs the base brought to
/// absolute form first — as given, or through tilde expansion — and
/// yields it as [`ResolveStep::ClassifyBase`].
pub fn try_resolve_in_step(candidate: &str, base: &str, home: Option<&str>) -> (r: Result<
    ResolveStep,
    ResolveError,
>)
    ensures
        is_abs(candidate@) ==> (r matches Ok(ResolveStep::Done(p)) && p@ == candidate@),
        !is_abs(candidate@) && tilde_prefixed(candidate@) ==> match home {
            Some(h) => r matches Ok(ResolveStep::Done(p)) && p@ == tilde_expanded(h@, candidate@),
            None => r == Err::<ResolveStep, ResolveError>(ResolveError::HomeNotFound),
        },
        !is_abs(candidate@) && !tilde_prefixed(candidate@) ==> match base_resolved(
            base@,
            home.deep_view(),
        ) {
            Ok(ab) => r matches Ok(ResolveStep::ClassifyBase(q)) && q@ == ab,
            Err(e) => r matches Err(e2) && e2 == e,
        },
{
    if is_absolute_path(candidate) {
        return Ok(ResolveStep::Done(candidate.to_owned()));
    }
    if starts_with_tilde(candidate) {
        return match home {
            Some(h) => Ok(ResolveStep::Done(resolve_tilde_with_home(h, candidate))),
            None => Err(ResolveError::HomeNotFound),
        };
    }
    if is_absolute_path(base) {
        return Ok(ResolveStep::ClassifyBase(base.to_owned()));
    }
    match home {
        None => Err(ResolveError::HomeNotFound),
        Some(h) => {
            let rb = resolve_tilde_with_home(h, base);
            if is_absolute_path(rb.as_str()) {
                Ok(ResolveStep::ClassifyBase(rb))
            } else {
                Err(ResolveError::InvalidBase)
            }
        },
    }
}

/// Finishes resolution of a relative `candidate` once the file system
/// has said whether the absolute base names a regular file.
///
/// A file base is replaced by its parent directory — and rejected when
/// it has none; a base that is a directory, or that the file system
/// could not classify, is used as it stands. The candidate loses its
/// leading `.` segments and is joined on; `..` segments are kept
/// verbatim.
pub fn try_resolve_in_classified(candidate: &str, base_dir: &str, base_is_file: bool) -> (r: Result<
    String,
    ResolveError,
>)
    ensures
        match finish_model(candidate@, base_dir@, base_is_file) {
            Ok(p) => r matches Ok(q) && q@ == p,
            Err(e) => r matches Err(e2) && e2 == e,
        },
{
    let stripped = strip_dot_segments(candidate);
    if base_is_file {
        match parent_of(base_dir) {
            None => Err(ResolveError::NoParentDirectory),
            Some(d) => Ok(join_paths(d, stripped)),
        }
    } else {
        Ok(join_paths(base_dir, stripped))
    }
}

/// Resolves `candidate` against `base` in one call, with the
/// environment handed in as plain values: the home directory, when one
/// is known, and the file system's answer to whether the resolved base
/// names a regular file (`false` both for a directory and for a base it
/// could not classify).
pub fn try_resolve_in_with(
    candidate: &str,
    base: &str,
    home: Option<&str>,
    base_is_file: bool,
) -> (r: Result<String, ResolveError>)
    ensures
        match resolve_model(candidate@, base@, home.deep_view(), base_is_file) {
            Ok(p) => r matches Ok(q) && q@ == p,
            Err(e) => r matches Err(e2) && e2 == e,
        },
{
    match try_resolve_in_step(candidate, base, home) {
        Err(e) => Err(e),
        Ok(ResolveStep::Done(p)) => Ok(p),
        Ok(ResolveStep::ClassifyBase(ab)) => try_resolve_in_classified(
            candidate,
            ab.as_str(),
            base_is_file,
        ),
    }
}

/// Resolves `candidate` against the process working directory, handed in
/// as a plain value: `None` — the directory could not be determined —
/// fails, and otherwise the working directory serves as the base
/// directory.
pub fn try_resolve_with(candidate: &str, cwd: Option<&str>, home: Option<&str>) -> (r: Result<
    String,
    ResolveError,
>)
    ensures
        match resolve_cwd_model(candidate@, cwd.deep_view(), home.deep_view()) {
            Ok(p) => r matches Ok(q) && q@ == p,
            Err(e) => r matches Err(e2) && e2 == e,
        },
{
    match cwd {
        None => Err(ResolveError::CwdUnavailable),
        Some(c) => try_resolve_in_with(candidate, c, home, false),
    }
}

/// Law: an absolute candidate is returned unchanged, whatever the base,
/// the home directory, or the base's classification.
pub proof fn lemma_absolute_passthrough(
    candidate: Seq<char>,
    base: Seq<char>,
    home: Option<Seq<char>>,
    base_is_file: bool,
)
    requires
        is_abs(candidate),
    ensures
        resolve_model(candidate, base, home, base_is_file) == Ok::<Seq<char>, ResolveError>(
            candidate,
        ),
{
}

/// Law: a tilde candidate is resolved through the home directory alone;
/// the base and its classification play no role in the outcome.
pub proof fn lemma_tilde_candidate_ignores_base(
    candidate: Seq<char>,
    base1: Seq<char>,
    base2: Seq<char>,
    home: Option<Seq<char>>,
    file1: bool,
    file2: bool,
)
    requires
        !is_abs(candidate),
        tilde_prefixed(candidate),
    ensures
        resolve_model(candidate, base1, home, file1) == resolve_model(
            candidate,
            base2,
            home,
            file2,
        ),
{
}

/// Law: when the file system could not classify an absolute base — it
/// does not exist, or the query failed — resolution does not fail on
/// that account: the candidate is joined directly onto the base.
pub proof fn lemma_unclassified_base_joins(
    candidate: Seq<char>,
    base: Seq<char>,
    home: Option<Seq<char>>,
)
    requires
        !is_abs(candidate),
        !tilde_prefixed(candidate),
        is_abs(base),
    ensures
        resolve_model(candidate, base, home, false) == Ok::<Seq<char>, ResolveError>(
            join_parts(base, strip_dot_prefix(candidate)),
        ),
{
}

/// Law: a base that is neither absolute nor brought to absolute form by
/// tilde expansion is rejected as an invalid base, for every relative
/// non-tilde candidate and either classification.
pub proof fn lemma_relative_base_rejected(
    candidate: Seq<char>,
    base: Seq<char>,
    home: Seq<char>,
    base_is_file: bool,
)
    requires
        !is_abs(candidate),
        !tilde_prefixed(candidate),
        !is_abs(base),
        !is_abs(tilde_expanded(home, base)),
    ensures
        resolve_model(candidate, base, Some(home), base_is_file) == Err::<Seq<char>, ResolveError>(
            ResolveError::InvalidBase,
        ),
{
}

/// Law: resolution is idempotent on its own absolute results — a path an
/// earlier call produced, when absolute, is returned unchanged by any
/// later call, against any base, home directory and classification.
pub proof fn lemma_resolve_idempotent(
    candidate: Seq<char>,
    base: Seq<char>,
    home: Option<Seq<char>>,
    base_is_file: bool,
    resolved: Seq<char>,
    base2: Seq<char>,
    home2: Option<Seq<char>>,
    file2: bool,
)
    requires
        resolve_model(candidate, base, home, base_is_file) == Ok::<Seq<char>, ResolveError>(
            resolved,
        ),
        is_abs(resolved),
    ensures
        resolve_model(resolved, base2, home2, file2) == Ok::<Seq<char>, ResolveError>(resolved),
{
}

} // verus!
