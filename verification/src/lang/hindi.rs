use vstd::prelude::*;

use super::charset::{in_range, char_in_range};
use super::markers::{DEVANAGARI_EXTENDED_RANGE, DEVANAGARI_RANGE};

verus! {

/// A letter of the Devanagari script, used for Hindi.
pub open spec fn spec_is_devanagari(ch: char) -> bool {
    in_range(DEVANAGARI_RANGE, ch) || in_range(DEVANAGARI_EXTENDED_RANGE, ch)
}

/// A letter of the Devanagari script, used for Hindi.
pub fn is_devanagari(ch: char) -> (r: bool)
    ensures
        r == spec_is_devanagari(ch),
{
    char_in_range(DEVANAGARI_RANGE, ch) || char_in_range(DEVANAGARI_EXTENDED_RANGE, ch)
}

} // verus!
