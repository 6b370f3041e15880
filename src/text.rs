use vstd::prelude::*;
use vstd::utf8::encode_utf8;

verus! {

/// Relies on String::capacity: the capacity of a string is never below its length in bytes.
#[verifier::external_body]
pub(crate) fn text_capacity(s: &String) -> (r: usize)
    ensures
        r >= encode_utf8(s@).len(),
{
    s.capacity()
}

/// The text of a borrowed string as an owned one.
pub(crate) fn owned_text(s: &str) -> (r: String)
    ensures
        r@ == s@,
{
    s.to_owned()
}

} // verus!
