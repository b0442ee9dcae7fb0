use vstd::prelude::*;

use super::charset::{in_ranges, char_in_ranges};
use super::markers::JAPANESE_RANGES;

verus! {

/// A Japanese kana (Hiragana or Katakana).
pub open spec fn spec_is_japanese(ch: char) -> bool {
    in_ranges(JAPANESE_RANGES@, ch)
}

/// A Japanese kana (Hiragana or Katakana).
pub fn is_japanese(ch: char) -> (r: bool)
    ensures
        r == spec_is_japanese(ch),
{
    char_in_ranges(&JAPANESE_RANGES, ch)
}

} // verus!
