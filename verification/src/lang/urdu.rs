use vstd::prelude::*;

use super::charset::char_in_set;
use super::markers::URDU_MARKERS;

verus! {

/// A letter that marks Urdu text.
pub open spec fn spec_is_urdu(ch: char) -> bool {
    URDU_MARKERS@.contains(ch)
}

/// A letter that marks Urdu text.
pub fn is_urdu(ch: char) -> (r: bool)
    ensures
        r == spec_is_urdu(ch),
{
    char_in_set(&URDU_MARKERS, ch)
}

} // verus!
