use vstd::prelude::*;
use vstd::utf8::encode_utf8;

use crate::component::{
    components, components_of, extension, extension_of, file_name, file_name_of,
    is_normalized_text, lemma_normalize_idempotent, normalize_path, normalized, parent, parent_of,
    join_text, join_texts, segs_of, segs_prefix, starts_with, Component,
};
use crate::error::PathError;
use crate::text::{owned_text, text_capacity};

verus! {

/// An owned path in normal form: no `.` segment, and `..` only where nothing precedes
/// it that it could cancel.
#[derive(Debug)]
pub struct NormPathBuf {
    text: String,
}

/// A borrowed path in normal form.
#[derive(Debug, Clone, Copy)]
pub struct NormPath<'a> {
    text: &'a str,
}

impl View for NormPathBuf {
    type V = Seq<char>;

    closed spec fn view(&self) -> Seq<char> {
        self.text@
    }
}

impl<'a> View for NormPath<'a> {
    type V = Seq<char>;

    closed spec fn view(&self) -> Seq<char> {
        self.text@
    }
}

impl NormPathBuf {
    #[verifier::type_invariant]
    spec fn inv(&self) -> bool {
        is_normalized_text(self.text@)
    }

    /// The normal form of `p`; this never fails.
    pub fn new(p: &str) -> (r: Result<NormPathBuf, PathError>)
        ensures
            r is Ok,
            r matches Ok(b) ==> b@ == normalized(p@),
    {
        let text = normalize_path(p);
        proof {
            lemma_normalize_idempotent(p@);
        }
        Ok(NormPathBuf { text })
    }

    /// Wraps a text already known to be in normal form, without looking at it again.
    pub fn new_unchecked(text: String) -> (r: NormPathBuf)
        requires
            is_normalized_text(text@),
        ensures
            r@ == text@,
    {
        NormPathBuf { text }
    }

    /// The path as text.
    pub fn as_path(&self) -> (r: &str)
        ensures
            r@ == self@,
            is_normalized_text(r@),
    {
        proof {
            use_type_invariant(self);
        }
        self.text.as_str()
    }

    /// The size of the storage that holds the path, in bytes.
    pub fn capacity(&self) -> (r: usize)
        ensures
            r >= encode_utf8(self@).len(),
    {
        text_capacity(&self.text)
    }

    /// The borrowed view of this path.
    pub fn as_norm_path(&self) -> (r: NormPath<'_>)
        ensures
            r@ == self@,
    {
        proof {
            use_type_invariant(self);
        }
        NormPath { text: self.text.as_str() }
    }
}

impl<'a> NormPath<'a> {
    #[verifier::type_invariant]
    spec fn inv(&self) -> bool {
        is_normalized_text(self.text@)
    }

    /// Views a text already known to be in normal form, without looking at it again.
    pub fn new_unchecked(p: &'a str) -> (r: NormPath<'a>)
        requires
            is_normalized_text(p@),
        ensures
            r@ == p@,
    {
        NormPath { text: p }
    }

    /// The path as text.
    pub fn as_path(&self) -> (r: &'a str)
        ensures
            r@ == self@,
            is_normalized_text(r@),
    {
        proof {
            use_type_invariant(self);
        }
        self.text
    }

    /// An owned copy of this path.
    pub fn to_path_buf(&self) -> (r: NormPathBuf)
        ensures
            r@ == self@,
    {
        proof {
            use_type_invariant(self);
        }
        NormPathBuf { text: owned_text(self.text) }
    }

    /// The segments of this path.
    pub fn components(&self) -> (r: Vec<Component>)
        ensures
            segs_of(r@) == components_of(self@),
    {
        components(self.text)
    }

    /// The last segment, when it is a plain name.
    pub fn file_name(&self) -> (r: Option<String>)
        ensures
            r matches Some(s) ==> file_name_of(self@) == Some(s@),
            r is None ==> file_name_of(self@) is None,
    {
        file_name(self.text)
    }

    /// The extension of the file name.
    pub fn extension(&self) -> (r: Option<String>)
        ensures
            r matches Some(s) ==> extension_of(self@) == Some(s@),
            r is None ==> extension_of(self@) is None,
    {
        extension(self.text)
    }

    /// The path without its last segment.
    pub fn parent(&self) -> (r: Option<String>)
        ensures
            r matches Some(s) ==> parent_of(self@) == Some(s@),
            r is None ==> parent_of(self@) is None,
    {
        parent(self.text)
    }

    /// This path with another path appended, brought to normal form.
    pub fn join(&self, other: &str) -> (r: NormPathBuf)
        ensures
            r@ == normalized(join_text(self@, other@)),
    {
        let t = join_texts(self.text, other);
        let text = normalize_path(t.as_str());
        proof {
            lemma_normalize_idempotent(t@);
        }
        NormPathBuf { text }
    }

    /// Whether the segments of `base` begin the segments of this path.
    pub fn starts_with(&self, base: &str) -> (r: bool)
        ensures
            r == segs_prefix(components_of(base@), components_of(self@)),
    {
        starts_with(self.text, base)
    }
}

impl Clone for NormPathBuf {
    fn clone(&self) -> (r: NormPathBuf)
        ensures
            r@ == self@,
    {
        proof {
            use_type_invariant(self);
        }
        NormPathBuf { text: self.text.clone() }
    }
}

impl PartialEq for NormPathBuf {
    fn eq(&self, other: &NormPathBuf) -> (r: bool) {
        self.text == other.text
    }
}

impl vstd::std_specs::cmp::PartialEqSpecImpl for NormPathBuf {
    open spec fn obeys_eq_spec() -> bool {
        true
    }

    open spec fn eq_spec(&self, other: &NormPathBuf) -> bool {
        self@ == other@
    }
}

impl Eq for NormPathBuf {
}

/// Conversion of a path text into its normal form.
pub trait ToNormPathBuf {
    spec fn path_text(&self) -> Seq<char>;

    fn to_norm_path_buf(&self) -> (r: Result<NormPathBuf, PathError>)
        ensures
            r is Ok,
            r matches Ok(b) ==> b@ == normalized(self.path_text()),
    ;
}

impl ToNormPathBuf for str {
    open spec fn path_text(&self) -> Seq<char> {
        self@
    }

    fn to_norm_path_buf(&self) -> (r: Result<NormPathBuf, PathError>) {
        NormPathBuf::new(self)
    }
}

impl ToNormPathBuf for String {
    open spec fn path_text(&self) -> Seq<char> {
        self@
    }

    fn to_norm_path_buf(&self) -> (r: Result<NormPathBuf, PathError>) {
        NormPathBuf::new(self.as_str())
    }
}

} // verus!
