use vstd::prelude::*;

use super::charset::{in_range, char_in_range, char_in_set};
use super::latin::{is_latin_extended, spec_is_latin_extended};
use super::markers::{VIETNAMESE_MARKERS, VIETNAMESE_TONE_RANGE};

verus! {

/// A Vietnamese-only extended Latin letter, or a precomposed letter with a
/// Vietnamese tone mark.
pub open spec fn spec_is_vietnamese(ch: char) -> bool {
    (spec_is_latin_extended(ch) && VIETNAMESE_MARKERS@.contains(ch)) || in_range(
        VIETNAMESE_TONE_RANGE,
        ch,
    )
}

/// A Vietnamese-only extended Latin letter, or a precomposed letter with a
/// Vietnamese tone mark.
pub fn is_vietnamese(ch: char) -> (r: bool)
    ensures
        r == spec_is_vietnamese(ch),
{
    (is_latin_extended(ch) && char_in_set(&VIETNAMESE_MARKERS, ch)) || char_in_range(
        VIETNAMESE_TONE_RANGE,
        ch,
    )
}

} // verus!
