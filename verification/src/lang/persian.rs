use vstd::prelude::*;

use super::charset::char_in_set;
use super::markers::PERSIAN_MARKERS;

verus! {

/// A letter that marks Persian text.
pub open spec fn spec_is_persian(ch: char) -> bool {
    PERSIAN_MARKERS@.contains(ch)
}

/// A letter that marks Persian text.
pub fn is_persian(ch: char) -> (r: bool)
    ensures
        r == spec_is_persian(ch),
{
    char_in_set(&PERSIAN_MARKERS, ch)
}

} // verus!
