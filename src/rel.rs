use vstd::prelude::*;
use vstd::utf8::encode_utf8;

use crate::component::{
    components, components_of, extension, extension_of, file_name, file_name_of, has_separator,
    join_text, join_texts, parent, parent_of, segs_of, segs_prefix, starts_with, Component,
};
use crate::host::{host_absolute, host_is_absolute};
use crate::error::PathError;
use crate::text::{owned_text, text_capacity};

verus! {

/// What taking `p` as a relative path gives, when the platform judges it absolute or not.
pub open spec fn rel_outcome(p: Seq<char>, absolute: bool) -> Result<Seq<char>, PathError> {
    if absolute {
        Err(PathError::NotRelative)
    } else {
        Ok(p)
    }
}

/// The text of a relative path that was made, or the error.
pub open spec fn rel_result(r: Result<RelPathBuf, PathError>) -> Result<Seq<char>, PathError> {
    match r {
        Ok(b) => Ok(b@),
        Err(e) => Err(e),
    }
}

/// An owned path that is relative.
#[derive(Debug)]
pub struct RelPathBuf {
    text: String,
}

/// A borrowed path that is relative.
#[derive(Debug, Clone, Copy)]
pub struct RelPath<'a> {
    text: &'a str,
}

impl View for RelPathBuf {
    type V = Seq<char>;

    closed spec fn view(&self) -> Seq<char> {
        self.text@
    }
}

impl<'a> View for RelPath<'a> {
    type V = Seq<char>;

    closed spec fn view(&self) -> Seq<char> {
        self.text@
    }
}

impl RelPathBuf {
    #[verifier::type_invariant]
    spec fn inv(&self) -> bool {
        !host_absolute(self.text@)
    }

    /// Takes the path `p` as it is, provided the platform's rules hold it relative. A
    /// path without any separator is relative on every platform.
    pub fn new(p: &str) -> (r: Result<RelPathBuf, PathError>)
        ensures
            r is Ok <==> !host_absolute(p@),
            r matches Ok(b) ==> b@ == p@,
            r matches Err(e) ==> e == PathError::NotRelative,
            !has_separator(p@) ==> r is Ok,
    {
        let absolute = host_is_absolute(p);
        RelPathBuf::from_checked(p, absolute)
    }

    /// Takes the path `p` as it is unless `absolute`, the platform's judgement of `p`,
    /// says that it is absolute.
    pub fn from_checked(p: &str, absolute: bool) -> (r: Result<RelPathBuf, PathError>)
        requires
            absolute == host_absolute(p@),
        ensures
            rel_result(r) == rel_outcome(p@, absolute),
    {
        if absolute {
            Err(PathError::NotRelative)
        } else {
            Ok(RelPathBuf::new_unchecked(owned_text(p)))
        }
    }

    /// Wraps a text already known to be relative by the platform's rules, without
    /// looking at it again.
    pub fn new_unchecked(text: String) -> (r: RelPathBuf)
        requires
            !host_absolute(text@),
        ensures
            r@ == text@,
    {
        RelPathBuf { text }
    }

    /// The path as text.
    pub fn as_path(&self) -> (r: &str)
        ensures
            r@ == self@,
            !host_absolute(r@),
    {
        proof {
            use_type_invariant(self);
        }
        self.text.as_str()
    }

    /// The size of the storage that holds the path, in bytes.
    pub fn capacity(&self) -> (r: usize)
        ensures
            r >= encode_utf8(self@).len(),
    {
        text_capacity(&self.text)
    }

    /// The borrowed view of this path.
    pub fn as_rel_path(&self) -> (r: RelPath<'_>)
        ensures
            r@ == self@,
    {
        proof {
            use_type_invariant(self);
        }
        RelPath { text: self.text.as_str() }
    }
}

impl<'a> RelPath<'a> {
    #[verifier::type_invariant]
    spec fn inv(&self) -> bool {
        !host_absolute(self.text@)
    }

    /// Views a text already known to be relative by the platform's rules, without
    /// looking at it again.
    pub fn new_unchecked(p: &'a str) -> (r: RelPath<'a>)
        requires
            !host_absolute(p@),
        ensures
            r@ == p@,
    {
        RelPath { text: p }
    }

    /// Views the text `p` as a relative path, provided the platform's rules hold it
    /// relative.
    pub fn new(p: &'a str) -> (r: Result<RelPath<'a>, PathError>)
        ensures
            r is Ok <==> !host_absolute(p@),
            r matches Ok(v) ==> v@ == p@,
            r matches Err(e) ==> e == PathError::NotRelative,
            !has_separator(p@) ==> r is Ok,
    {
        if host_is_absolute(p) {
            Err(PathError::NotRelative)
        } else {
            Ok(RelPath::new_unchecked(p))
        }
    }

    /// The path as text.
    pub fn as_path(&self) -> (r: &'a str)
        ensures
            r@ == self@,
            !host_absolute(r@),
    {
        proof {
            use_type_invariant(self);
        }
        self.text
    }

    /// An owned copy of this path.
    pub fn to_path_buf(&self) -> (r: RelPathBuf)
        ensures
            r@ == self@,
    {
        proof {
            use_type_invariant(self);
        }
        RelPathBuf { text: owned_text(self.text) }
    }

    /// The segments of this path.
    pub fn components(&self) -> (r: Vec<Component>)
        ensures
            segs_of(r@) == components_of(self@),
    {
        components(self.text)
    }

    /// The last segment, when it is a plain name.
    pub fn file_name(&self) -> (r: Option<String>)
        ensures
            r matches Some(s) ==> file_name_of(self@) == Some(s@),
            r is None ==> file_name_of(self@) is None,
    {
        file_name(self.text)
    }

    /// The extension of the file name.
    pub fn extension(&self) -> (r: Option<String>)
        ensures
            r matches Some(s) ==> extension_of(self@) == Some(s@),
            r is None ==> extension_of(self@) is None,
    {
        extension(self.text)
    }

    /// The path without its last segment.
    pub fn parent(&self) -> (r: Option<String>)
        ensures
            r matches Some(s) ==> parent_of(self@) == Some(s@),
            r is None ==> parent_of(self@) is None,
    {
        parent(self.text)
    }

    /// This path with another relative path appended, provided the platform's rules
    /// hold the result relative.
    pub fn join(&self, rel: RelPath<'_>) -> (r: Result<RelPathBuf, PathError>)
        ensures
            r is Ok <==> !host_absolute(join_text(self@, rel@)),
            r matches Ok(b) ==> b@ == join_text(self@, rel@),
            r matches Err(e) ==> e == PathError::NotRelative,
    {
        let t = join_texts(self.text, rel.as_path());
        RelPathBuf::new(t.as_str())
    }

    /// Whether the segments of `base` begin the segments of this path.
    pub fn starts_with(&self, base: &str) -> (r: bool)
        ensures
            r == segs_prefix(components_of(base@), components_of(self@)),
    {
        starts_with(self.text, base)
    }
}

impl Clone for RelPathBuf {
    fn clone(&self) -> (r: RelPathBuf)
        ensures
            r@ == self@,
    {
        proof {
            use_type_invariant(self);
        }
        RelPathBuf { text: self.text.clone() }
    }
}

impl PartialEq for RelPathBuf {
    fn eq(&self, other: &RelPathBuf) -> (r: bool) {
        self.text == other.text
    }
}

impl vstd::std_specs::cmp::PartialEqSpecImpl for RelPathBuf {
    open spec fn obeys_eq_spec() -> bool {
        true
    }

    open spec fn eq_spec(&self, other: &RelPathBuf) -> bool {
        self@ == other@
    }
}

impl Eq for RelPathBuf {
}

/// Conversion of a path text into an owned relative path.
pub trait ToRelPathBuf {
    spec fn path_text(&self) -> Seq<char>;

    fn to_rel_path_buf(&self) -> (r: Result<RelPathBuf, PathError>)
        ensures
            r is Ok <==> !host_absolute(self.path_text()),
            r matches Ok(b) ==> b@ == self.path_text(),
            r matches Err(e) ==> e == PathError::NotRelative,
            !has_separator(self.path_text()) ==> r is Ok,
    ;
}

impl ToRelPathBuf for str {
    open spec fn path_text(&self) -> Seq<char> {
        self@
    }

    fn to_rel_path_buf(&self) -> (r: Result<RelPathBuf, PathError>) {
        RelPathBuf::new(self)
    }
}

impl ToRelPathBuf for String {
    open spec fn path_text(&self) -> Seq<char> {
        self@
    }

    fn to_rel_path_buf(&self) -> (r: Result<RelPathBuf, PathError>) {
        RelPathBuf::new(self.as_str())
    }
}

} // verus!
