use vstd::prelude::*;

use super::charset::{char_in_set, in_range};
use super::keywords::{char_words, push_single_char_strings, strings_view};
use super::markers::{
    CJK_RANGES,
    SIMPLIFIED_MARKERS,
    SIMPLIFIED_MORE_1,
    SIMPLIFIED_MORE_2,
    SIMPLIFIED_MORE_3,
    SIMPLIFIED_MORE_4,
    SIMPLIFIED_MORE_5,
    SIMPLIFIED_MORE_6,
    SIMPLIFIED_MORE_7,
    SIMPLIFIED_MORE_8,
    SIMPLIFIED_MORE_9,
    SIMPLIFIED_MORE_10,
    SIMPLIFIED_MORE_11,
    TRADITIONAL_MARKERS,
    TRADITIONAL_MORE_1,
    TRADITIONAL_MORE_2,
};
use super::Lang;

verus! {

/// All characters written only in Simplified Chinese, table after table.
pub open spec fn simplified_markers() -> Seq<char> {
    SIMPLIFIED_MARKERS@ + SIMPLIFIED_MORE_1@ + SIMPLIFIED_MORE_2@ + SIMPLIFIED_MORE_3@
        + SIMPLIFIED_MORE_4@ + SIMPLIFIED_MORE_5@ + SIMPLIFIED_MORE_6@ + SIMPLIFIED_MORE_7@
        + SIMPLIFIED_MORE_8@ + SIMPLIFIED_MORE_9@ + SIMPLIFIED_MORE_10@ + SIMPLIFIED_MORE_11@
}

/// All characters written only in Traditional Chinese, table after table.
pub open spec fn traditional_markers() -> Seq<char> {
    TRADITIONAL_MARKERS@ + TRADITIONAL_MORE_1@ + TRADITIONAL_MORE_2@
}

/// A character written only in Simplified Chinese.
pub open spec fn spec_is_simplified_marker(ch: char) -> bool {
    simplified_markers().contains(ch)
}

/// A character written only in Traditional Chinese.
pub open spec fn spec_is_traditional_marker(ch: char) -> bool {
    traditional_markers().contains(ch)
}

/// A character occurs in two tables one after the other when it occurs in either.
pub proof fn lemma_concat_contains(a: Seq<char>, b: Seq<char>, c: char)
    ensures
        (a + b).contains(c) <==> (a.contains(c) || b.contains(c)),
{
    if a.contains(c) {
        let i = choose|i: int| 0 <= i < a.len() && a[i] == c;
        assert((a + b)[i] == c);
    }
    if b.contains(c) {
        let j = choose|j: int| 0 <= j < b.len() && b[j] == c;
        assert((a + b)[a.len() + j] == c);
    }
    if (a + b).contains(c) {
        let k = choose|k: int| 0 <= k < (a + b).len() && (a + b)[k] == c;
        if k < a.len() {
            assert(a[k] == c);
        } else {
            assert(b[k - a.len()] == c);
        }
    }
}

proof fn lemma_simplified_tables(c: char)
    ensures
        spec_is_simplified_marker(c) <==> (SIMPLIFIED_MARKERS@.contains(c)
            || SIMPLIFIED_MORE_1@.contains(c)
            || SIMPLIFIED_MORE_2@.contains(c)
            || SIMPLIFIED_MORE_3@.contains(c)
            || SIMPLIFIED_MORE_4@.contains(c)
            || SIMPLIFIED_MORE_5@.contains(c)
            || SIMPLIFIED_MORE_6@.contains(c)
            || SIMPLIFIED_MORE_7@.contains(c)
            || SIMPLIFIED_MORE_8@.contains(c)
            || SIMPLIFIED_MORE_9@.contains(c)
            || SIMPLIFIED_MORE_10@.contains(c)
            || SIMPLIFIED_MORE_11@.contains(c)),
{
    lemma_concat_contains(SIMPLIFIED_MARKERS@, SIMPLIFIED_MORE_1@, c);
    let p1 = SIMPLIFIED_MARKERS@ + SIMPLIFIED_MORE_1@;
    lemma_concat_contains(p1, SIMPLIFIED_MORE_2@, c);
    let p2 = p1 + SIMPLIFIED_MORE_2@;
    lemma_concat_contains(p2, SIMPLIFIED_MORE_3@, c);
    let p3 = p2 + SIMPLIFIED_MORE_3@;
    lemma_concat_contains(p3, SIMPLIFIED_MORE_4@, c);
    let p4 = p3 + SIMPLIFIED_MORE_4@;
    lemma_concat_contains(p4, SIMPLIFIED_MORE_5@, c);
    let p5 = p4 + SIMPLIFIED_MORE_5@;
    lemma_concat_contains(p5, SIMPLIFIED_MORE_6@, c);
    let p6 = p5 + SIMPLIFIED_MORE_6@;
    lemma_concat_contains(p6, SIMPLIFIED_MORE_7@, c);
    let p7 = p6 + SIMPLIFIED_MORE_7@;
    lemma_concat_contains(p7, SIMPLIFIED_MORE_8@, c);
    let p8 = p7 + SIMPLIFIED_MORE_8@;
    lemma_concat_contains(p8, SIMPLIFIED_MORE_9@, c);
    let p9 = p8 + SIMPLIFIED_MORE_9@;
    lemma_concat_contains(p9, SIMPLIFIED_MORE_10@, c);
    let p10 = p9 + SIMPLIFIED_MORE_10@;
    lemma_concat_contains(p10, SIMPLIFIED_MORE_11@, c);
}

proof fn lemma_traditional_tables(c: char)
    ensures
        spec_is_traditional_marker(c) <==> (TRADITIONAL_MARKERS@.contains(c)
            || TRADITIONAL_MORE_1@.contains(c)
            || TRADITIONAL_MORE_2@.contains(c)),
{
    lemma_concat_contains(TRADITIONAL_MARKERS@, TRADITIONAL_MORE_1@, c);
    let p1 = TRADITIONAL_MARKERS@ + TRADITIONAL_MORE_1@;
    lemma_concat_contains(p1, TRADITIONAL_MORE_2@, c);
}

/// A character written only in Simplified Chinese.
pub fn is_simplified_marker(ch: char) -> (r: bool)
    ensures
        r == spec_is_simplified_marker(ch),
{
    proof {
        lemma_simplified_tables(ch);
    }
    char_in_set(&SIMPLIFIED_MARKERS, ch)
        || char_in_set(&SIMPLIFIED_MORE_1, ch)
        || char_in_set(&SIMPLIFIED_MORE_2, ch)
        || char_in_set(&SIMPLIFIED_MORE_3, ch)
        || char_in_set(&SIMPLIFIED_MORE_4, ch)
        || char_in_set(&SIMPLIFIED_MORE_5, ch)
        || char_in_set(&SIMPLIFIED_MORE_6, ch)
        || char_in_set(&SIMPLIFIED_MORE_7, ch)
        || char_in_set(&SIMPLIFIED_MORE_8, ch)
        || char_in_set(&SIMPLIFIED_MORE_9, ch)
        || char_in_set(&SIMPLIFIED_MORE_10, ch)
        || char_in_set(&SIMPLIFIED_MORE_11, ch)
}

/// A character written only in Traditional Chinese.
pub fn is_traditional_marker(ch: char) -> (r: bool)
    ensures
        r == spec_is_traditional_marker(ch),
{
    proof {
        lemma_traditional_tables(ch);
    }
    char_in_set(&TRADITIONAL_MARKERS, ch)
        || char_in_set(&TRADITIONAL_MORE_1, ch)
        || char_in_set(&TRADITIONAL_MORE_2, ch)
}

/// The built-in keyword hints for Chinese: every marker character as a one-letter
/// word, Simplified (`cn`) first, then Traditional (`tw`).
pub fn built_in_keywords() -> (r: Vec<(Lang, Vec<String>)>)
    ensures
        r@.len() == 2,
        r@[0].0 == Lang::ZhHans,
        strings_view(r@[0].1@) == char_words(simplified_markers()),
        r@[1].0 == Lang::ZhHant,
        strings_view(r@[1].1@) == char_words(traditional_markers()),
{
    let mut simplified: Vec<String> = Vec::new();
    push_single_char_strings(&mut simplified, &SIMPLIFIED_MARKERS);
    push_single_char_strings(&mut simplified, &SIMPLIFIED_MORE_1);
    push_single_char_strings(&mut simplified, &SIMPLIFIED_MORE_2);
    push_single_char_strings(&mut simplified, &SIMPLIFIED_MORE_3);
    push_single_char_strings(&mut simplified, &SIMPLIFIED_MORE_4);
    push_single_char_strings(&mut simplified, &SIMPLIFIED_MORE_5);
    push_single_char_strings(&mut simplified, &SIMPLIFIED_MORE_6);
    push_single_char_strings(&mut simplified, &SIMPLIFIED_MORE_7);
    push_single_char_strings(&mut simplified, &SIMPLIFIED_MORE_8);
    push_single_char_strings(&mut simplified, &SIMPLIFIED_MORE_9);
    push_single_char_strings(&mut simplified, &SIMPLIFIED_MORE_10);
    push_single_char_strings(&mut simplified, &SIMPLIFIED_MORE_11);
    assert(strings_view(simplified@) =~= char_words(simplified_markers()));
    let mut traditional: Vec<String> = Vec::new();
    push_single_char_strings(&mut traditional, &TRADITIONAL_MARKERS);
    push_single_char_strings(&mut traditional, &TRADITIONAL_MORE_1);
    push_single_char_strings(&mut traditional, &TRADITIONAL_MORE_2);
    assert(strings_view(traditional@) =~= char_words(traditional_markers()));
    let mut r: Vec<(Lang, Vec<String>)> = Vec::new();
    r.push((Lang::ZhHans, simplified));
    r.push((Lang::ZhHant, traditional));
    r
}

/// Every character of `table` lies in the CJK Unified Ideographs block.
spec fn all_unified(table: Seq<char>) -> bool {
    forall|i: int| 0 <= i < table.len() ==> in_range(CJK_RANGES@[1], #[trigger] table[i])
}

proof fn lemma_table_unified(table: Seq<char>, c: char)
    requires
        all_unified(table),
        table.contains(c),
    ensures
        super::cjk::spec_is_cjk(c),
{
    let i = choose|i: int| 0 <= i < table.len() && table[i] == c;
    assert(in_range(CJK_RANGES@[1], table[i]));
}

/// Every Chinese marker character is a CJK ideograph (they all lie in the
/// CJK Unified Ideographs block).
pub proof fn lemma_markers_are_cjk(c: char)
    ensures
        spec_is_simplified_marker(c) ==> super::cjk::spec_is_cjk(c),
        spec_is_traditional_marker(c) ==> super::cjk::spec_is_cjk(c),
{
    assert(all_unified(SIMPLIFIED_MARKERS@));
    assert(all_unified(SIMPLIFIED_MORE_1@));
    assert(all_unified(SIMPLIFIED_MORE_2@));
    assert(all_unified(SIMPLIFIED_MORE_3@));
    assert(all_unified(SIMPLIFIED_MORE_4@));
    assert(all_unified(SIMPLIFIED_MORE_5@));
    assert(all_unified(SIMPLIFIED_MORE_6@));
    assert(all_unified(SIMPLIFIED_MORE_7@));
    assert(all_unified(SIMPLIFIED_MORE_8@));
    assert(all_unified(SIMPLIFIED_MORE_9@));
    assert(all_unified(SIMPLIFIED_MORE_10@));
    assert(all_unified(SIMPLIFIED_MORE_11@));
    assert(all_unified(TRADITIONAL_MARKERS@));
    assert(all_unified(TRADITIONAL_MORE_1@));
    assert(all_unified(TRADITIONAL_MORE_2@));
    lemma_simplified_tables(c);
    lemma_traditional_tables(c);
    if SIMPLIFIED_MARKERS@.contains(c) {
        lemma_table_unified(SIMPLIFIED_MARKERS@, c);
    }
    if SIMPLIFIED_MORE_1@.contains(c) {
        lemma_table_unified(SIMPLIFIED_MORE_1@, c);
    }
    if SIMPLIFIED_MORE_2@.contains(c) {
        lemma_table_unified(SIMPLIFIED_MORE_2@, c);
    }
    if SIMPLIFIED_MORE_3@.contains(c) {
        lemma_table_unified(SIMPLIFIED_MORE_3@, c);
    }
    if SIMPLIFIED_MORE_4@.contains(c) {
        lemma_table_unified(SIMPLIFIED_MORE_4@, c);
    }
    if SIMPLIFIED_MORE_5@.contains(c) {
        lemma_table_unified(SIMPLIFIED_MORE_5@, c);
    }
    if SIMPLIFIED_MORE_6@.contains(c) {
        lemma_table_unified(SIMPLIFIED_MORE_6@, c);
    }
    if SIMPLIFIED_MORE_7@.contains(c) {
        lemma_table_unified(SIMPLIFIED_MORE_7@, c);
    }
    if SIMPLIFIED_MORE_8@.contains(c) {
        lemma_table_unified(SIMPLIFIED_MORE_8@, c);
    }
    if SIMPLIFIED_MORE_9@.contains(c) {
        lemma_table_unified(SIMPLIFIED_MORE_9@, c);
    }
    if SIMPLIFIED_MORE_10@.contains(c) {
        lemma_table_unified(SIMPLIFIED_MORE_10@, c);
    }
    if SIMPLIFIED_MORE_11@.contains(c) {
        lemma_table_unified(SIMPLIFIED_MORE_11@, c);
    }
    if TRADITIONAL_MARKERS@.contains(c) {
        lemma_table_unified(TRADITIONAL_MARKERS@, c);
    }
    if TRADITIONAL_MORE_1@.contains(c) {
        lemma_table_unified(TRADITIONAL_MORE_1@, c);
    }
    if TRADITIONAL_MORE_2@.contains(c) {
        lemma_table_unified(TRADITIONAL_MORE_2@, c);
    }
}

} // verus!
