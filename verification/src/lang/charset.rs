//! Membership of a character in a table of inclusive ranges or in a set of characters.
use vstd::prelude::*;

verus! {

/// `ch` lies in the inclusive range `range`.
pub open spec fn in_range(range: (char, char), ch: char) -> bool {
    range.0 <= ch && ch <= range.1
}

/// `ch` lies in one of the inclusive ranges of `table`.
pub open spec fn in_ranges(table: Seq<(char, char)>, ch: char) -> bool {
    exists|i: int| 0 <= i < table.len() && #[trigger] in_range(table[i], ch)
}

/// Whether `ch` lies in the inclusive range `range`.
pub fn char_in_range(range: (char, char), ch: char) -> (r: bool)
    ensures
        r == in_range(range, ch),
{
    range.0 <= ch && ch <= range.1
}

/// Whether `ch` lies in one of the ranges of `table`.
pub fn char_in_ranges(table: &[(char, char)], ch: char) -> (r: bool)
    ensures
        r == in_ranges(table@, ch),
{
    let mut i: usize = 0;
    while i < table.len()
        invariant
            i <= table.len(),
            forall|j: int| 0 <= j < i ==> !in_range(#[trigger] table@[j], ch),
        decreases table.len() - i,
    {
        if char_in_range(table[i], ch) {
            return true;
        }
        i = i + 1;
    }
    false
}

/// Whether `ch` is one of the characters of `table`.
pub fn char_in_set(table: &[char], ch: char) -> (r: bool)
    ensures
        r == table@.contains(ch),
{
    let mut i: usize = 0;
    while i < table.len()
        invariant
            i <= table.len(),
            forall|j: int| 0 <= j < i ==> #[trigger] table@[j] != ch,
        decreases table.len() - i,
    {
        if table[i] == ch {
            return true;
        }
        i = i + 1;
    }
    false
}

} // verus!
