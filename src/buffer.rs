//! String buffers for assembled URLs.
use vstd::prelude::*;

verus! {

/// Relies on `String::with_capacity`: a new, empty string with room for at
/// least `capacity` bytes.
#[verifier::external_body]
pub(crate) fn string_with_capacity(capacity: usize) -> (r: String)
    ensures
        r@ == Seq::<char>::empty(),
{
    String::with_capacity(capacity)
}

/// Relies on `String::push`: appends one character.
#[verifier::external_body]
pub(crate) fn push_char(s: &mut String, c: char)
    ensures
        final(s)@ == old(s)@.push(c),
{
    s.push(c)
}

} // verus!
