use vstd::prelude::*;

use super::charset::{in_range, char_in_range};
use super::markers::THAI_RANGE;

verus! {

/// A letter of the Thai script.
pub open spec fn spec_is_thai(ch: char) -> bool {
    in_range(THAI_RANGE, ch)
}

/// A letter of the Thai script.
pub fn is_thai(ch: char) -> (r: bool)
    ensures
        r == spec_is_thai(ch),
{
    char_in_range(THAI_RANGE, ch)
}

} // verus!
