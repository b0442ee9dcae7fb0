use vstd::prelude::*;

use super::charset::char_in_set;
use super::markers::UKRAINIAN_MARKERS;

verus! {

/// A letter that marks Ukrainian text.
pub open spec fn spec_is_ukrainian(ch: char) -> bool {
    UKRAINIAN_MARKERS@.contains(ch)
}

/// A letter that marks Ukrainian text.
pub fn is_ukrainian(ch: char) -> (r: bool)
    ensures
        r == spec_is_ukrainian(ch),
{
    char_in_set(&UKRAINIAN_MARKERS, ch)
}

} // verus!
