//! The home-directory lookup, and tilde expansion against the live
//! environment.

use vstd::prelude::*;

use crate::errors::ResolveError;
use crate::model::tilde_expanded;
use crate::model::tilde_prefixed;
use crate::tilde::resolve_tilde_with_home;

verus! {

/// Relies on `dirs::home_dir`: the current user's home directory as the
/// platform reports it (`$HOME`, or the password database), or `None`
/// when none can be determined. The value depends on the environment, so
/// nothing is promised of it. A home directory whose name is not valid
/// UTF-8 is treated as absent.
#[verifier::external_body]
pub fn home_dir() -> (r: Option<String>) {
    dirs::home_dir().and_then(|p| p.into_os_string().into_string().ok())
}

/// Expands a leading `~` in `path` to the home directory of the live
/// environment. Fails exactly when no home directory can be determined —
/// also for a path without a tilde, since the lookup comes first. When it
/// succeeds, the result is the tilde expansion of `path` against some
/// home directory; a path without a leading `~` component comes back
/// unchanged.
pub fn try_resolve_tilde(path: &str) -> (r: Result<String, ResolveError>)
    ensures
        r matches Err(e) ==> e == ResolveError::HomeNotFound,
        r matches Ok(s) ==> exists|h: Seq<char>| s@ == #[trigger] tilde_expanded(h, path@),
        r matches Ok(s) ==> (!tilde_prefixed(path@) ==> s@ == path@),
{
    match home_dir() {
        None => Err(ResolveError::HomeNotFound),
        Some(h) => {
            let res = resolve_tilde_with_home(h.as_str(), path);
            proof {
                assert(res@ == tilde_expanded(h@, path@));
            }
            Ok(res)
        },
    }
}

} // verus!
