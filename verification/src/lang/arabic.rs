use vstd::prelude::*;

use super::charset::{char_in_ranges, in_range, in_ranges};
use super::markers::ARABIC_RANGES;

verus! {

/// A letter of the Arabic script, including its presentation forms.
pub open spec fn spec_is_arabic(ch: char) -> bool {
    in_ranges(ARABIC_RANGES@, ch)
}

/// A letter of the Arabic script, including its presentation forms.
pub fn is_arabic(ch: char) -> (r: bool)
    ensures
        r == spec_is_arabic(ch),
{
    char_in_ranges(&ARABIC_RANGES, ch)
}

/// The letters that mark Persian or Urdu text are all letters of the Arabic
/// script, so a line labelled `fa` or `ur` by its letters shows Arabic too.
pub proof fn lemma_marker_letters_are_arabic(ch: char)
    ensures
        super::persian::spec_is_persian(ch) ==> spec_is_arabic(ch),
        super::urdu::spec_is_urdu(ch) ==> spec_is_arabic(ch),
{
    if super::persian::spec_is_persian(ch) || super::urdu::spec_is_urdu(ch) {
        assert(in_range(ARABIC_RANGES@[0], ch));
    }
}

} // verus!
