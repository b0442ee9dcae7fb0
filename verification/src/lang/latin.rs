use vstd::prelude::*;

use super::charset::{in_range, char_in_range};
use super::markers::{LATIN_EXTENDED_A_RANGE, LATIN_EXTENDED_RANGE};

verus! {

/// A letter of the Latin Extended-A or Extended-B blocks.
pub open spec fn spec_is_latin_extended(ch: char) -> bool {
    in_range(LATIN_EXTENDED_RANGE, ch) || in_range(LATIN_EXTENDED_A_RANGE, ch)
}

/// A letter of the Latin Extended-A or Extended-B blocks.
pub fn is_latin_extended(ch: char) -> (r: bool)
    ensures
        r == spec_is_latin_extended(ch),
{
    char_in_range(LATIN_EXTENDED_RANGE, ch) || char_in_range(LATIN_EXTENDED_A_RANGE, ch)
}

} // verus!
