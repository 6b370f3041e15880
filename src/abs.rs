use vstd::prelude::*;
use vstd::string::StrSliceExecFns;
use vstd::string::StringExecFns;
use vstd::utf8::encode_utf8;

use crate::component::{
    components, components_of, extension, extension_of, file_name, file_name_of, has_separator,
    join_text, join_texts, parent, parent_of, segs_of, segs_prefix, starts_with, Component,
};
use crate::host::{absolute_from_current_dir, host_absolute, host_is_absolute};
use crate::error::PathError;
use crate::rel::{rel_outcome, RelPath};
use crate::text::{owned_text, text_capacity};

verus! {

/// What making `p` absolute gives: `p` itself when the platform judges it absolute;
/// otherwise the resolution against the current directory, when there is one and the
/// platform judges it absolute.
pub open spec fn resolution_outcome(
    p: Seq<char>,
    absolute: bool,
    resolved: Option<(Seq<char>, bool)>,
) -> Result<Seq<char>, PathError> {
    if absolute {
        Ok(p)
    } else {
        match resolved {
            None => Err(PathError::Io),
            Some((s, resolved_absolute)) => if resolved_absolute {
                Ok(s)
            } else {
                Err(PathError::NotAbsolute)
            },
        }
    }
}

/// The text of a resolution, beside the platform's judgement of it.
pub open spec fn resolved_view(resolved: Option<(String, bool)>) -> Option<(Seq<char>, bool)> {
    match resolved {
        None => None,
        Some((s, a)) => Some((s@, a)),
    }
}

/// The text of an absolute path that was made, or the error.
pub open spec fn abs_result(r: Result<AbsPathBuf, PathError>) -> Result<Seq<char>, PathError> {
    match r {
        Ok(b) => Ok(b@),
        Err(e) => Err(e),
    }
}

/// Making `p` absolute consults the current directory exactly when taking `p` as a
/// relative path succeeds, and that happens exactly when the platform's rules do not
/// hold `p` absolute.
pub proof fn lemma_category_exclusive(p: Seq<char>)
    ensures
        (forall|x: Option<(Seq<char>, bool)>, y: Option<(Seq<char>, bool)>|
            #![trigger resolution_outcome(p, host_absolute(p), x), resolution_outcome(p, host_absolute(p), y)]
            resolution_outcome(p, host_absolute(p), x) == resolution_outcome(p, host_absolute(p), y))
            <==> rel_outcome(p, host_absolute(p)) is Err,
        rel_outcome(p, host_absolute(p)) is Ok <==> !host_absolute(p),
{
    if !host_absolute(p) {
        assert(resolution_outcome(p, host_absolute(p), None) != resolution_outcome(
            p,
            host_absolute(p),
            Some((p, true)),
        ));
    }
}

/// An owned path that is absolute.
#[derive(Debug)]
pub struct AbsPathBuf {
    text: String,
}

/// A borrowed path that is absolute.
#[derive(Debug, Clone, Copy)]
pub struct AbsPath<'a> {
    text: &'a str,
}

impl View for AbsPathBuf {
    type V = Seq<char>;

    closed spec fn view(&self) -> Seq<char> {
        self.text@
    }
}

impl<'a> View for AbsPath<'a> {
    type V = Seq<char>;

    closed spec fn view(&self) -> Seq<char> {
        self.text@
    }
}

impl AbsPathBuf {
    #[verifier::type_invariant]
    spec fn inv(&self) -> bool {
        host_absolute(self.text@)
    }

    /// Makes `p` absolute by the platform's rules: an absolute path is taken as it is,
    /// without the current directory; a relative one is resolved against the current
    /// directory.
    pub fn new(p: &str) -> (r: Result<AbsPathBuf, PathError>)
        ensures
            host_absolute(p@) ==> (r matches Ok(b) && b@ == p@),
            r matches Ok(b) ==> host_absolute(b@),
            r matches Err(e) ==> !host_absolute(p@) && (e == PathError::Io || e
                == PathError::NotAbsolute),
            p@.len() == 0 ==> r == Err::<AbsPathBuf, PathError>(PathError::Io),
    {
        let absolute = host_is_absolute(p);
        let resolved = if absolute {
            None
        } else {
            match absolute_from_current_dir(p) {
                None => None,
                Some(s) => {
                    let resolved_absolute = host_is_absolute(s.as_str());
                    Some((s, resolved_absolute))
                },
            }
        };
        AbsPathBuf::from_resolution(p, absolute, resolved)
    }

    /// Makes `p` absolute from the platform's judgement of `p` and, for a relative `p`,
    /// from its resolution against the current directory together with the platform's
    /// judgement of that resolution.
    pub fn from_resolution(p: &str, absolute: bool, resolved: Option<(String, bool)>) -> (r: Result<
        AbsPathBuf,
        PathError,
    >)
        requires
            absolute == host_absolute(p@),
            resolved matches Some((s, a)) ==> a == host_absolute(s@),
        ensures
            abs_result(r) == resolution_outcome(p@, absolute, resolved_view(resolved)),
    {
        if absolute {
            Ok(AbsPathBuf { text: owned_text(p) })
        } else {
            match resolved {
                None => Err(PathError::Io),
                Some((s, resolved_absolute)) => {
                    if resolved_absolute {
                        Ok(AbsPathBuf { text: s })
                    } else {
                        Err(PathError::NotAbsolute)
                    }
                },
            }
        }
    }

    /// Takes the path `p` as it is, provided the platform's rules hold it absolute;
    /// nothing is resolved.
    pub fn from_absolute(p: &str) -> (r: Result<AbsPathBuf, PathError>)
        ensures
            r is Ok <==> host_absolute(p@),
            r matches Ok(b) ==> b@ == p@,
            r matches Err(e) ==> e == PathError::NotAbsolute,
            !has_separator(p@) ==> r is Err,
    {
        if host_is_absolute(p) {
            Ok(AbsPathBuf::new_unchecked(owned_text(p)))
        } else {
            Err(PathError::NotAbsolute)
        }
    }

    /// Wraps a text already known to be absolute by the platform's rules, without
    /// looking at it again.
    pub fn new_unchecked(text: String) -> (r: AbsPathBuf)
        requires
            host_absolute(text@),
        ensures
            r@ == text@,
    {
        AbsPathBuf { text }
    }

    /// The path as text.
    pub fn as_path(&self) -> (r: &str)
        ensures
            r@ == self@,
            host_absolute(r@),
    {
        proof {
            use_type_invariant(self);
        }
        self.text.as_str()
    }

    /// The size of the storage that holds the path, in bytes.
    pub fn capacity(&self) -> (r: usize)
        ensures
            r >= encode_utf8(self@).len(),
    {
        text_capacity(&self.text)
    }

    /// The borrowed view of this path.
    pub fn as_abs_path(&self) -> (r: AbsPath<'_>)
        ensures
            r@ == self@,
    {
        proof {
            use_type_invariant(self);
        }
        AbsPath { text: self.text.as_str() }
    }

    /// Appends a relative path, provided the platform's rules hold the result absolute;
    /// otherwise the path is left as it is.
    pub fn push(&mut self, rel: RelPath<'_>)
        ensures
            host_absolute(join_text(old(self)@, rel@)) ==> final(self)@ == join_text(
                old(self)@,
                rel@,
            ),
            !host_absolute(join_text(old(self)@, rel@)) ==> final(self)@ == old(self)@,
    {
        let t = join_texts(self.text.as_str(), rel.as_path());
        if host_is_absolute(t.as_str()) {
            *self = AbsPathBuf { text: t };
        }
    }
}

impl<'a> AbsPath<'a> {
    #[verifier::type_invariant]
    spec fn inv(&self) -> bool {
        host_absolute(self.text@)
    }

    /// Views a text already known to be absolute by the platform's rules, without
    /// looking at it again.
    pub fn new_unchecked(p: &'a str) -> (r: AbsPath<'a>)
        requires
            host_absolute(p@),
        ensures
            r@ == p@,
    {
        AbsPath { text: p }
    }

    /// Views the text `p` as an absolute path, provided the platform's rules hold it
    /// absolute.
    pub fn new(p: &'a str) -> (r: Result<AbsPath<'a>, PathError>)
        ensures
            r is Ok <==> host_absolute(p@),
            r matches Ok(v) ==> v@ == p@,
            r matches Err(e) ==> e == PathError::NotAbsolute,
            !has_separator(p@) ==> r is Err,
    {
        if host_is_absolute(p) {
            Ok(AbsPath::new_unchecked(p))
        } else {
            Err(PathError::NotAbsolute)
        }
    }

    /// The path as text.
    pub fn as_path(&self) -> (r: &'a str)
        ensures
            r@ == self@,
            host_absolute(r@),
    {
        proof {
            use_type_invariant(self);
        }
        self.text
    }

    /// An owned copy of this path.
    pub fn to_path_buf(&self) -> (r: AbsPathBuf)
        ensures
            r@ == self@,
    {
        proof {
            use_type_invariant(self);
        }
        AbsPathBuf { text: owned_text(self.text) }
    }

    /// This path with a relative path appended, provided the platform's rules hold the
    /// result absolute; otherwise a copy of this path.
    pub fn join(&self, rel: RelPath<'_>) -> (r: AbsPathBuf)
        ensures
            host_absolute(join_text(self@, rel@)) ==> r@ == join_text(self@, rel@),
            !host_absolute(join_text(self@, rel@)) ==> r@ == self@,
    {
        let mut b = self.to_path_buf();
        b.push(rel);
        b
    }

    /// The segments of this path.
    pub fn components(&self) -> (r: Vec<Component>)
        ensures
            segs_of(r@) == components_of(self@),
    {
        components(self.text)
    }

    /// The last segment, when it is a plain name.
    pub fn file_name(&self) -> (r: Option<String>)
        ensures
            r matches Some(s) ==> file_name_of(self@) == Some(s@),
            r is None ==> file_name_of(self@) is None,
    {
        file_name(self.text)
    }

    /// The extension of the file name.
    pub fn extension(&self) -> (r: Option<String>)
        ensures
            r matches Some(s) ==> extension_of(self@) == Some(s@),
            r is None ==> extension_of(self@) is None,
    {
        extension(self.text)
    }

    /// The path without its last segment.
    pub fn parent(&self) -> (r: Option<String>)
        ensures
            r matches Some(s) ==> parent_of(self@) == Some(s@),
            r is None ==> parent_of(self@) is None,
    {
        parent(self.text)
    }

    /// Whether the segments of `base` begin the segments of this path.
    pub fn starts_with(&self, base: &str) -> (r: bool)
        ensures
            r == segs_prefix(components_of(base@), components_of(self@)),
    {
        starts_with(self.text, base)
    }
}

impl Clone for AbsPathBuf {
    fn clone(&self) -> (r: AbsPathBuf)
        ensures
            r@ == self@,
    {
        proof {
            use_type_invariant(self);
        }
        AbsPathBuf { text: self.text.clone() }
    }
}

impl PartialEq for AbsPathBuf {
    fn eq(&self, other: &AbsPathBuf) -> (r: bool) {
        self.text == other.text
    }
}

impl vstd::std_specs::cmp::PartialEqSpecImpl for AbsPathBuf {
    open spec fn obeys_eq_spec() -> bool {
        true
    }

    open spec fn eq_spec(&self, other: &AbsPathBuf) -> bool {
        self@ == other@
    }
}

impl Eq for AbsPathBuf {
}

/// Conversion of a path text into an owned absolute path.
pub trait ToAbsPathBuf {
    spec fn path_text(&self) -> Seq<char>;

    fn to_abs_path_buf(&self) -> (r: Result<AbsPathBuf, PathError>)
        ensures
            host_absolute(self.path_text()) ==> (r matches Ok(b) && b@ == self.path_text()),
            r matches Ok(b) ==> host_absolute(b@),
            r matches Err(e) ==> !host_absolute(self.path_text()) && (e == PathError::Io || e
                == PathError::NotAbsolute),
            self.path_text().len() == 0 ==> r == Err::<AbsPathBuf, PathError>(PathError::Io),
    ;
}

impl ToAbsPathBuf for str {
    open spec fn path_text(&self) -> Seq<char> {
        self@
    }

    fn to_abs_path_buf(&self) -> (r: Result<AbsPathBuf, PathError>) {
        AbsPathBuf::new(self)
    }
}

impl ToAbsPathBuf for String {
    open spec fn path_text(&self) -> Seq<char> {
        self@
    }

    fn to_abs_path_buf(&self) -> (r: Result<AbsPathBuf, PathError>) {
        AbsPathBuf::new(self.as_str())
    }
}

} // verus!
