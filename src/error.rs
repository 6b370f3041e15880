use vstd::prelude::*;

verus! {

/// Why a path could not be placed in a category.
#[derive(Debug, Clone, Copy, PartialEq, Eq, Structural)]
pub enum PathError {
    /// The path text is relative where an absolute one is required.
    NotAbsolute,
    /// The path text is absolute where a relative one is required.
    NotRelative,
    /// The current directory could not be read to resolve a relative path.
    Io,
}

} // verus!
