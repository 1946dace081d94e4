//! The trusted boundary: the few outside calls the core leans on, each
//! behind a wrapper whose contract Verus believes.

use vstd::prelude::*;

verus! {

/// Relies on chrono's `Local::now().timestamp()`: the current time as
/// whole seconds since the Unix epoch. The value depends on the clock, so
/// nothing is promised of it.
#[verifier::external_body]
pub(crate) fn now_timestamp() -> i64 {
    chrono::Local::now().timestamp()
}

/// Relies on `char::from_u32` of std (vstd gives it no specification): the
/// result is the `char` with scalar value `v` when `v` is a Unicode scalar
/// value, and `None` exactly when it is not (a surrogate, or above the
/// Unicode range).
#[verifier::external_body]
pub(crate) fn char_from_u32(v: u32) -> (r: Option<char>)
    ensures
        r == (if vstd::utf8::is_scalar(v) {
            Some(v as char)
        } else {
            None::<char>
        }),
{
    char::from_u32(v)
}

/// Relies on `String::push` of std (vstd gives it no specification): it
/// appends the given character to the end of the string.
#[verifier::external_body]
pub(crate) fn push_char(s: &mut String, c: char)
    ensures
        final(s)@ == old(s)@.push(c),
{
    s.push(c)
}

} // verus!
