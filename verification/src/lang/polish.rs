use vstd::prelude::*;

use super::charset::char_in_set;
use super::markers::POLISH_MARKERS;

verus! {

/// A letter that marks Polish text.
pub open spec fn spec_is_polish(ch: char) -> bool {
    POLISH_MARKERS@.contains(ch)
}

/// A letter that marks Polish text.
pub fn is_polish(ch: char) -> (r: bool)
    ensures
        r == spec_is_polish(ch),
{
    char_in_set(&POLISH_MARKERS, ch)
}

} // verus!
