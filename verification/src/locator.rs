//! Where the store is: the directory named by the user, or the one below the
//! user's home.

use crate::path::{join, join_paths};
use vstd::prelude::*;

verus! {

/// The directory of the store below the user's home.
pub open spec fn store_dir() -> Seq<char> {
    ".password-store"@
}

/// The root of the store, from what the environment gave.
///
/// `override_dir` is the directory that the user named, if any, and
/// `override_exists` says whether something exists at it; `home` is the user's
/// home directory, if it is known. A named directory that exists is the root
/// as it stands. Otherwise the root is `.password-store` below the home. With
/// neither there is no root.
pub open spec fn resolved_root(
    override_dir: Option<Seq<char>>,
    override_exists: bool,
    home: Option<Seq<char>>,
) -> Option<Seq<char>> {
    match (override_dir, home) {
        (Some(dir), _) if override_exists => Some(dir),
        (_, Some(home_dir)) => Some(join(home_dir, store_dir())),
        (_, None) => None,
    }
}

/// The root of the store. `None` means that the store cannot be located: no
/// directory that exists was named and the home directory is unknown.
pub fn password_base(
    override_dir: Option<String>,
    override_exists: bool,
    home: Option<String>,
) -> (root: Option<String>)
    ensures
        root.deep_view() == resolved_root(
            override_dir.deep_view(),
            override_exists,
            home.deep_view(),
        ),
{
    match override_dir {
        Some(dir) if override_exists => Some(dir),
        _ => match home {
            Some(home_dir) => Some(join_paths(home_dir.as_str(), ".password-store")),
            None => None,
        },
    }
}

} // verus!
