//! What this crate assumes of `String` beyond what vstd states.

use vstd::prelude::*;

verus! {

/// `String::push` appends the character to the end of the string and changes
/// nothing else.
pub assume_specification[ String::push ](s: &mut String, c: char)
    ensures
        final(s)@ == old(s)@.push(c),
;

} // verus!
