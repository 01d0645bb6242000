//! The warning shown when wgtui does not run elevated (as Administrator).
//!
//! `winget install --scope machine` needs admin rights, so a non-elevated
//! session gets a status-bar warning.

use vstd::prelude::*;

verus! {

/// The marker of a session without administrative rights.
pub open spec fn warning(elevated: bool) -> Option<Seq<char>> {
    if elevated {
        None
    } else {
        Some(" ⚠ sem admin "@)
    }
}

/// The short status-bar marker to show, or `None` when elevated.
///
/// (Kept short so it fits next to `q quit`. Installs with `--scope machine` need
/// admin; `"scope": "user"` in the manifest avoids them.)
#[must_use]
pub fn elevation_warning(elevated: bool) -> (w: Option<&'static str>)
    ensures
        w.deep_view() == warning(elevated),
{
    if elevated {
        None
    } else {
        Some(" ⚠ sem admin ")
    }
}

} // verus!
