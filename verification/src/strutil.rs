//! Small trusted helpers over std strings that vstd gives no
//! specification for.
use vstd::prelude::*;

verus! {

/// Relies on std's `String::push`: appends one character at the end of
/// the string.
#[verifier::external_body]
pub fn push_char(s: &mut String, c: char)
    ensures
        final(s)@ == old(s)@.push(c),
{
    s.push(c);
}

} // verus!
