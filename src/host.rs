use vstd::prelude::*;

use crate::component::has_separator;

verus! {

/// Whether the text `p` is an absolute path by the rules of the platform that this
/// library is built for; it depends on the text alone.
pub uninterp spec fn host_absolute(p: Seq<char>) -> bool;

/// Relies on std::path::Path::is_absolute, which follows the platform's rules: on Unix
/// a path is absolute when it starts with the root, on Windows when it has a prefix and
/// then the root. Either way an absolute path holds a separator.
#[verifier::external_body]
pub(crate) fn host_is_absolute(p: &str) -> (r: bool)
    ensures
        r == host_absolute(p@),
        r ==> has_separator(p@),
{
    std::path::Path::new(p).is_absolute()
}

/// Relies on std::path::absolute, which resolves `p` against the current directory by
/// the host's rules and fails on an empty path or when the current directory cannot
/// be read. A result that is not valid UTF-8 counts as a failure.
#[verifier::external_body]
pub(crate) fn absolute_from_current_dir(p: &str) -> (r: Option<String>)
    ensures
        p@.len() == 0 ==> r is None,
{
    match std::path::absolute(p) {
        Ok(b) => b.into_os_string().into_string().ok(),
        Err(_) => None,
    }
}

} // verus!
