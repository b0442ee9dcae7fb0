use vstd::prelude::*;

use super::charset::{in_ranges, char_in_ranges};
use super::markers::CYRILLIC_RANGES;

verus! {

/// A letter of the Cyrillic script.
pub open spec fn spec_is_cyrillic(ch: char) -> bool {
    in_ranges(CYRILLIC_RANGES@, ch)
}

/// A letter of the Cyrillic script.
pub fn is_cyrillic(ch: char) -> (r: bool)
    ensures
        r == spec_is_cyrillic(ch),
{
    char_in_ranges(&CYRILLIC_RANGES, ch)
}

} // verus!
