//! What counts as evidence for each language, read straight off the Unicode
//! ranges and marker tables, and the laws that tie the scan flags, the
//! matching and the highlighting to that evidence.
use vstd::prelude::*;

use crate::lang::chinese::{simplified_markers, traditional_markers};
use crate::lang::charset::{in_range, in_ranges};
use crate::lang::markers::{
    ARABIC_RANGES, CJK_RANGES, CYRILLIC_RANGES, DEVANAGARI_EXTENDED_RANGE, DEVANAGARI_RANGE,
    GREEK_RANGES, HEBREW_RANGES, JAPANESE_RANGES, LATIN_EXTENDED_A_RANGE, LATIN_EXTENDED_RANGE,
    PERSIAN_MARKERS, POLISH_MARKERS, THAI_RANGE, TURKISH_MARKERS, UKRAINIAN_MARKERS,
    URDU_MARKERS, VIETNAMESE_MARKERS, VIETNAMESE_TONE_RANGE,
};
use crate::lang::Lang;

use super::detect::{flags_of, keyword_hit, spec_is_highlight_char, spec_lang_matches};
use super::flags::{lang_needs, line_has, plan_of, script_char, Flags, ScanPlan, Script};

verus! {

/// A Hangul letter: Jamo, compatibility Jamo, syllables, Jamo Extended-A and -B.
pub open spec fn hangul_letter(c: char) -> bool {
    ||| ('\u{1100}' <= c && c <= '\u{11FF}')
    ||| ('\u{3130}' <= c && c <= '\u{318F}')
    ||| ('\u{AC00}' <= c && c <= '\u{D7A3}')
    ||| ('\u{A960}' <= c && c <= '\u{A97F}')
    ||| ('\u{D7B0}' <= c && c <= '\u{D7FF}')
}

/// `c` is evidence for `lang`: it lies in the Unicode ranges of the language's
/// script or is one of its marker letters. CJK ideographs are evidence for
/// `cjk`, kana for `ja`, Hangul for `ko` and its regional labels.
pub open spec fn letter_of(lang: Lang, c: char) -> bool {
    match lang {
        Lang::Ar => in_ranges(ARABIC_RANGES@, c),
        Lang::Cjk => in_ranges(CJK_RANGES@, c),
        Lang::El => in_ranges(GREEK_RANGES@, c),
        Lang::Fa => PERSIAN_MARKERS@.contains(c),
        Lang::He => in_ranges(HEBREW_RANGES@, c),
        Lang::Hi => in_range(DEVANAGARI_RANGE, c) || in_range(DEVANAGARI_EXTENDED_RANGE, c),
        Lang::Ja => in_ranges(JAPANESE_RANGES@, c),
        Lang::Ko => hangul_letter(c),
        Lang::KoKp => hangul_letter(c),
        Lang::KoKr => hangul_letter(c),
        Lang::Pl => POLISH_MARKERS@.contains(c),
        Lang::Ru => in_ranges(CYRILLIC_RANGES@, c),
        Lang::Th => in_range(THAI_RANGE, c),
        Lang::Tr => TURKISH_MARKERS@.contains(c),
        Lang::Uk => UKRAINIAN_MARKERS@.contains(c),
        Lang::Ur => URDU_MARKERS@.contains(c),
        Lang::Vi => ((in_range(LATIN_EXTENDED_RANGE, c) || in_range(LATIN_EXTENDED_A_RANGE, c))
            && VIETNAMESE_MARKERS@.contains(c)) || in_range(VIETNAMESE_TONE_RANGE, c),
        Lang::ZhHans => simplified_markers().contains(c),
        Lang::ZhHant => traditional_markers().contains(c),
    }
}

/// Some character of `line` is evidence for `lang`.
pub open spec fn line_shows(line: Seq<char>, lang: Lang) -> bool {
    exists|i: int| 0 <= i < line.len() && #[trigger] letter_of(lang, line[i])
}

proof fn lemma_same_evidence(line: Seq<char>, script: Script, lang: Lang)
    requires
        forall|c: char| #[trigger] script_char(script, c) == letter_of(lang, c),
    ensures
        line_has(line, script) == line_shows(line, lang),
{
    if line_has(line, script) {
        let i = choose|i: int| 0 <= i < line.len() && #[trigger] script_char(script, line[i]);
        assert(letter_of(lang, line[i]));
    }
    if line_shows(line, lang) {
        let i = choose|i: int| 0 <= i < line.len() && #[trigger] letter_of(lang, line[i]);
        assert(script_char(script, line[i]));
    }
}

/// Each script flag of a scan is set exactly when the plan looks for the
/// script and some character of the line is evidence for it: kana set the
/// Japanese flag, CJK ideographs the CJK flag, Cyrillic letters the Cyrillic
/// flag, and so on; no other character sets a flag.
pub proof fn lemma_flags_follow_letters(line: Seq<char>, plan: ScanPlan)
    ensures
        flags_of(line, plan).has_cjk == (plan.need_cjk && line_shows(line, Lang::Cjk)),
        flags_of(line, plan).has_cyr == (plan.need_cyr && line_shows(line, Lang::Ru)),
        flags_of(line, plan).has_hangul == (plan.need_hangul && line_shows(line, Lang::Ko)),
        flags_of(line, plan).has_vietnamese == (plan.need_vietnamese && line_shows(line, Lang::Vi)),
        flags_of(line, plan).has_thai == (plan.need_thai && line_shows(line, Lang::Th)),
        flags_of(line, plan).has_turkish == (plan.need_turkish && line_shows(line, Lang::Tr)),
        flags_of(line, plan).has_ukrainian == (plan.need_ukrainian && line_shows(line, Lang::Uk)),
        flags_of(line, plan).has_arabic == (plan.need_arabic && line_shows(line, Lang::Ar)),
        flags_of(line, plan).has_persian == (plan.need_persian && line_shows(line, Lang::Fa)),
        flags_of(line, plan).has_hebrew == (plan.need_hebrew && line_shows(line, Lang::He)),
        flags_of(line, plan).has_devanagari == (plan.need_devanagari && line_shows(line, Lang::Hi)),
        flags_of(line, plan).has_greek == (plan.need_greek && line_shows(line, Lang::El)),
        flags_of(line, plan).has_polish == (plan.need_polish && line_shows(line, Lang::Pl)),
        flags_of(line, plan).has_urdu == (plan.need_urdu && line_shows(line, Lang::Ur)),
        flags_of(line, plan).has_japanese == (plan.need_japanese && line_shows(line, Lang::Ja)),
        flags_of(line, plan).has_simplified_marker == (plan.need_simplified_marker && line_shows(line, Lang::ZhHans)),
        flags_of(line, plan).has_traditional_marker == (plan.need_traditional_marker && line_shows(line, Lang::ZhHant)),
{
    lemma_same_evidence(line, Script::Cjk, Lang::Cjk);
    lemma_same_evidence(line, Script::Cyr, Lang::Ru);
    lemma_same_evidence(line, Script::Hangul, Lang::Ko);
    lemma_same_evidence(line, Script::Vietnamese, Lang::Vi);
    lemma_same_evidence(line, Script::Thai, Lang::Th);
    lemma_same_evidence(line, Script::Turkish, Lang::Tr);
    lemma_same_evidence(line, Script::Ukrainian, Lang::Uk);
    lemma_same_evidence(line, Script::Arabic, Lang::Ar);
    lemma_same_evidence(line, Script::Persian, Lang::Fa);
    lemma_same_evidence(line, Script::Hebrew, Lang::He);
    lemma_same_evidence(line, Script::Devanagari, Lang::Hi);
    lemma_same_evidence(line, Script::Greek, Lang::El);
    lemma_same_evidence(line, Script::Polish, Lang::Pl);
    lemma_same_evidence(line, Script::Urdu, Lang::Ur);
    lemma_same_evidence(line, Script::Japanese, Lang::Ja);
    lemma_same_evidence(line, Script::SimplifiedMarker, Lang::ZhHans);
    lemma_same_evidence(line, Script::TraditionalMarker, Lang::ZhHant);
}

/// The characters highlighted for a language are exactly its evidence: CJK
/// ideographs for `cjk`, kana for `ja`, and so on; the regional Korean labels
/// highlight no character (only their keywords).
pub proof fn lemma_highlight_follows_letters(lang: Lang, c: char)
    ensures
        spec_is_highlight_char(lang, c) == (lang != Lang::KoKp && lang != Lang::KoKr && letter_of(lang, c)),
{
}

/// The script that the plan of a language looks for.
pub open spec fn plan_has(plan: ScanPlan, lang: Lang) -> bool {
    match lang {
        Lang::Ar => plan.need_arabic,
        Lang::Cjk => plan.need_cjk,
        Lang::El => plan.need_greek,
        Lang::Fa => plan.need_persian,
        Lang::He => plan.need_hebrew,
        Lang::Hi => plan.need_devanagari,
        Lang::Ja => plan.need_japanese,
        Lang::Ko => plan.need_hangul,
        Lang::KoKp => plan.need_hangul,
        Lang::KoKr => plan.need_hangul,
        Lang::Pl => plan.need_polish,
        Lang::Ru => plan.need_cyr,
        Lang::Th => plan.need_thai,
        Lang::Tr => plan.need_turkish,
        Lang::Uk => plan.need_ukrainian,
        Lang::Ur => plan.need_urdu,
        Lang::Vi => plan.need_vietnamese,
        Lang::ZhHans => plan.need_simplified_marker,
        Lang::ZhHant => plan.need_traditional_marker,
    }
}

/// A scanned language has its own evidence looked for, and Ukrainian and
/// Vietnamese letters are looked for exactly when `uk` and `vi` are scanned.
pub proof fn lemma_plan_covers(langs: Seq<Lang>, lang: Lang)
    ensures
        langs.contains(lang) ==> plan_has(plan_of(langs), lang),
        plan_of(langs).need_ukrainian == langs.contains(Lang::Uk),
        plan_of(langs).need_vietnamese == langs.contains(Lang::Vi),
{
    if langs.contains(lang) {
        let i = choose|i: int| 0 <= i < langs.len() && langs[i] == lang;
        match lang {
            Lang::Ar => assert(lang_needs(langs[i], Script::Arabic)),
            Lang::Cjk => assert(lang_needs(langs[i], Script::Cjk)),
            Lang::El => assert(lang_needs(langs[i], Script::Greek)),
            Lang::Fa => assert(lang_needs(langs[i], Script::Persian)),
            Lang::He => assert(lang_needs(langs[i], Script::Hebrew)),
            Lang::Hi => assert(lang_needs(langs[i], Script::Devanagari)),
            Lang::Ja => assert(lang_needs(langs[i], Script::Japanese)),
            Lang::Ko => assert(lang_needs(langs[i], Script::Hangul)),
            Lang::KoKp => assert(lang_needs(langs[i], Script::Hangul)),
            Lang::KoKr => assert(lang_needs(langs[i], Script::Hangul)),
            Lang::Pl => assert(lang_needs(langs[i], Script::Polish)),
            Lang::Ru => assert(lang_needs(langs[i], Script::Cyr)),
            Lang::Th => assert(lang_needs(langs[i], Script::Thai)),
            Lang::Tr => assert(lang_needs(langs[i], Script::Turkish)),
            Lang::Uk => assert(lang_needs(langs[i], Script::Ukrainian)),
            Lang::Ur => assert(lang_needs(langs[i], Script::Urdu)),
            Lang::Vi => assert(lang_needs(langs[i], Script::Vietnamese)),
            Lang::ZhHans => assert(lang_needs(langs[i], Script::SimplifiedMarker)),
            Lang::ZhHant => assert(lang_needs(langs[i], Script::TraditionalMarker)),
        }
    }
    if plan_of(langs).need_ukrainian {
        let i = choose|i: int| 0 <= i < langs.len() && #[trigger] lang_needs(langs[i], Script::Ukrainian);
        assert(langs[i] == Lang::Uk);
    }
    if langs.contains(Lang::Uk) {
        let i = choose|i: int| 0 <= i < langs.len() && langs[i] == Lang::Uk;
        assert(lang_needs(langs[i], Script::Ukrainian));
    }
    if plan_of(langs).need_vietnamese {
        let i = choose|i: int| 0 <= i < langs.len() && #[trigger] lang_needs(langs[i], Script::Vietnamese);
        assert(langs[i] == Lang::Vi);
    }
    if langs.contains(Lang::Vi) {
        let i = choose|i: int| 0 <= i < langs.len() && langs[i] == Lang::Vi;
        assert(lang_needs(langs[i], Script::Vietnamese));
    }
}

/// The evidence that lets a scanned language match without a keyword: a
/// letter of its own on the line, except that Russian gives way to Ukrainian
/// letters when `uk` is scanned, and Polish to Vietnamese letters when `vi` is.
pub open spec fn shows_language(line: Seq<char>, langs: Seq<Lang>, lang: Lang) -> bool {
    &&& line_shows(line, lang)
    &&& !(lang == Lang::Ru && langs.contains(Lang::Uk) && line_shows(line, Lang::Uk))
    &&& !(lang == Lang::Pl && langs.contains(Lang::Vi) && line_shows(line, Lang::Vi))
}

/// Whether a scanned language matches a line, in terms of the line itself: a
/// language matches when one of its keywords occurs in the line, or else when
/// the line shows its letters (`shows_language`). The regional Korean labels,
/// once they have a keyword list, match by their keywords alone. In
/// particular a line with a CJK ideograph always matches `cjk`, whatever else
/// it holds.
pub proof fn lemma_matching_follows_letters(
    line: Seq<char>,
    langs: Seq<Lang>,
    keywords: Map<Lang, Seq<Seq<char>>>,
    lang: Lang,
)
    requires
        langs.contains(lang),
    ensures
        spec_lang_matches(lang, line, flags_of(line, plan_of(langs)), keywords) == if keyword_hit(keywords, lang, line) {
            true
        } else if keywords.dom().contains(lang) && (lang == Lang::KoKp || lang == Lang::KoKr) {
            false
        } else {
            shows_language(line, langs, lang)
        },
{
    lemma_flags_follow_letters(line, plan_of(langs));
    lemma_plan_covers(langs, lang);
    let flags = flags_of(line, plan_of(langs));
    assert(plan_has(plan_of(langs), lang));
    match lang {
        Lang::Pl => {
            assert(flags.has_vietnamese == (langs.contains(Lang::Vi) && line_shows(line, Lang::Vi)));
        },
        Lang::Ru => {
            assert(flags.has_ukrainian == (langs.contains(Lang::Uk) && line_shows(line, Lang::Uk)));
        },
        Lang::KoKp | Lang::KoKr => {
            if line_shows(line, Lang::Ko) {
                let i = choose|i: int| 0 <= i < line.len() && #[trigger] letter_of(Lang::Ko, line[i]);
                assert(letter_of(lang, line[i]));
            }
            if line_shows(line, lang) {
                let i = choose|i: int| 0 <= i < line.len() && #[trigger] letter_of(lang, line[i]);
                assert(letter_of(Lang::Ko, line[i]));
            }
        },
        _ => {},
    }
}

} // verus!
