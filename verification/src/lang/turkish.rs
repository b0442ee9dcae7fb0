use vstd::prelude::*;

use super::charset::char_in_set;
use super::markers::TURKISH_MARKERS;

verus! {

/// A letter that marks Turkish text.
pub open spec fn spec_is_turkish(ch: char) -> bool {
    TURKISH_MARKERS@.contains(ch)
}

/// A letter that marks Turkish text.
pub fn is_turkish(ch: char) -> (r: bool)
    ensures
        r == spec_is_turkish(ch),
{
    char_in_set(&TURKISH_MARKERS, ch)
}

} // verus!
