use vstd::prelude::*;

pub mod component;
pub mod error;
pub mod norm;
pub mod abs;
pub mod rel;
mod host;
mod text;

pub use component::Component;
pub use error::PathError;
pub use norm::{NormPath, NormPathBuf, ToNormPathBuf};
pub use abs::{AbsPath, AbsPathBuf, ToAbsPathBuf};
pub use rel::{RelPath, RelPathBuf, ToRelPathBuf};

verus! {

} // verus!
