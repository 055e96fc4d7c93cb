//! String building: the two standard-library append operations that
//! the display and column-name machinery is built on.

use vstd::prelude::*;

verus! {

/// Relies on `String::push_str`: appends the characters of a string
/// slice to the end of the owned string.
pub assume_specification[ String::push_str ](s: &mut String, other: &str)
    ensures
        final (s)@ == old(s)@ + other@,
;

/// Relies on `String::push`: appends one character to the end of the
/// owned string.
pub assume_specification[ String::push ](s: &mut String, c: char)
    ensures
        final (s)@ == old(s)@.push(c),
;

} // verus!
