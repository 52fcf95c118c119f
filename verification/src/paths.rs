//! Paths are held as text. The one thing asked of a path is its parent.

use crate::text::opt_text_view;
use vstd::prelude::*;

verus! {

/// The parent of a path as `std::path::Path::parent` gives it on the
/// platform that the crate is built for: the path without its last
/// component, and `None` for a root and for the empty path.
pub uninterp spec fn parent_path(path: Seq<char>) -> Option<Seq<char>>;

/// Calls `std::path::Path::parent`. Assumed, not proved: the result is a
/// function of the path's text alone, named `parent_path`. The parent of a
/// path that is valid text is valid text, so nothing is lost in turning it
/// back into a string.
#[verifier::external_body]
pub(crate) fn parent_of(path: &String) -> (parent: Option<String>)
    ensures
        opt_text_view(parent) == parent_path(path@),
{
    std::path::Path::new(path.as_str()).parent().map(|p| p.to_string_lossy().into_owned())
}

} // verus!
