use vstd::prelude::*;

use super::charset::{in_ranges, char_in_ranges};
use super::markers::GREEK_RANGES;

verus! {

/// A letter of the Greek script.
pub open spec fn spec_is_greek(ch: char) -> bool {
    in_ranges(GREEK_RANGES@, ch)
}

/// A letter of the Greek script.
pub fn is_greek(ch: char) -> (r: bool)
    ensures
        r == spec_is_greek(ch),
{
    char_in_ranges(&GREEK_RANGES, ch)
}

} // verus!
