//! Resolution of relative (`./`) and tilde (`~/`) path strings into
//! absolute paths, anchored to a caller-supplied base directory or to the
//! process working directory.
//!
//! No canonicalization is performed: `..` and `.` segments inside a path
//! are kept verbatim; only the leading `~` of a path and the leading `.`
//! segments of a relative candidate are interpreted.
//!
//! The environment enters only as plain values: the home directory and
//! the working directory are handed in as strings, and the one fact the
//! file system contributes — whether the resolved base names a regular
//! file — is handed in as a boolean. [`resolve::try_resolve_in_step`]
//! says when that fact is needed, so a caller that talks to the real file
//! system can run the two steps around its own metadata query.

pub mod errors;
pub mod home;
pub mod model;
pub mod parts;
pub mod resolve;
pub mod tilde;

pub use errors::ResolveError;
pub use home::home_dir;
pub use home::try_resolve_tilde;
pub use resolve::ResolveStep;
pub use resolve::try_resolve_in_classified;
pub use resolve::try_resolve_in_step;
pub use resolve::try_resolve_in_with;
pub use resolve::try_resolve_with;
pub use tilde::resolve_tilde_with_home;
