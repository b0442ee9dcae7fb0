use vstd::prelude::*;

use super::charset::{in_ranges, char_in_ranges};
use super::markers::CJK_RANGES;

verus! {

/// A CJK ideograph, as written in China, Japan and Korea.
pub open spec fn spec_is_cjk(ch: char) -> bool {
    in_ranges(CJK_RANGES@, ch)
}

/// A CJK ideograph, as written in China, Japan and Korea.
pub fn is_cjk(ch: char) -> (r: bool)
    ensures
        r == spec_is_cjk(ch),
{
    char_in_ranges(&CJK_RANGES, ch)
}

} // verus!
