use vstd::prelude::*;

use super::charset::{in_ranges, char_in_ranges};
use super::markers::HEBREW_RANGES;

verus! {

/// A letter of the Hebrew script.
pub open spec fn spec_is_hebrew(ch: char) -> bool {
    in_ranges(HEBREW_RANGES@, ch)
}

/// A letter of the Hebrew script.
pub fn is_hebrew(ch: char) -> (r: bool)
    ensures
        r == spec_is_hebrew(ch),
{
    char_in_ranges(&HEBREW_RANGES, ch)
}

} // verus!
