//! Languages, their labels and names, the per-script character predicates and
//! the keyword hints attached to each language.
use vstd::prelude::*;

use crate::text::{
    ascii_lowercase, chars_equal_str, chars_of, lowercase_chars, push_char, trim, trim_chars,
    trim_end, trim_start,
};

pub mod arabic;
pub mod charset;
pub mod chinese;
pub mod cjk;
pub mod cyrillic;
pub mod greek;
pub mod hebrew;
pub mod hindi;
pub mod japanese;
pub mod keywords;
pub mod korean;
pub mod latin;
pub mod markers;
pub mod persian;
pub mod polish;
pub mod thai;
pub mod turkish;
pub mod ukrainian;
pub mod urdu;
pub mod vietnamese;

pub use arabic::is_arabic;
pub use chinese::{is_simplified_marker, is_traditional_marker};
pub use cjk::is_cjk;
pub use cyrillic::is_cyrillic;
pub use greek::is_greek;
pub use hebrew::is_hebrew;
pub use hindi::is_devanagari;
pub use japanese::is_japanese;
pub use keywords::{load_keywords, KeywordError, KeywordMap};
pub use korean::is_hangul;
pub use latin::is_latin_extended;
pub use persian::is_persian;
pub use polish::is_polish;
pub use thai::is_thai;
pub use turkish::is_turkish;
pub use ukrainian::is_ukrainian;
pub use urdu::is_urdu;
pub use vietnamese::is_vietnamese;

verus! {

/// A language, script family or regional variant that the scanner can report.
#[derive(Clone, Copy, Debug, PartialEq, Eq, Structural, PartialOrd, Ord, Hash)]
pub enum Lang {
    Ar,
    Cjk,
    El,
    Fa,
    He,
    Hi,
    Ja,
    Ko,
    KoKp,
    KoKr,
    Pl,
    Ru,
    Th,
    Tr,
    Uk,
    Ur,
    Vi,
    ZhHans,
    ZhHant,
}

/// The number of languages.
pub const LANG_COUNT: usize = 19;

/// The position of `lang` in the declaration order of `Lang`.
pub open spec fn spec_lang_index(lang: Lang) -> nat {
    match lang {
        Lang::Ar => 0,
        Lang::Cjk => 1,
        Lang::El => 2,
        Lang::Fa => 3,
        Lang::He => 4,
        Lang::Hi => 5,
        Lang::Ja => 6,
        Lang::Ko => 7,
        Lang::KoKp => 8,
        Lang::KoKr => 9,
        Lang::Pl => 10,
        Lang::Ru => 11,
        Lang::Th => 12,
        Lang::Tr => 13,
        Lang::Uk => 14,
        Lang::Ur => 15,
        Lang::Vi => 16,
        Lang::ZhHans => 17,
        Lang::ZhHant => 18,
    }
}

/// The language at position `i` of the declaration order of `Lang`.
pub open spec fn spec_lang_at(i: int) -> Lang
    recommends
        0 <= i < LANG_COUNT,
{
    if i == 0 {
        Lang::Ar
    } else if i == 1 {
        Lang::Cjk
    } else if i == 2 {
        Lang::El
    } else if i == 3 {
        Lang::Fa
    } else if i == 4 {
        Lang::He
    } else if i == 5 {
        Lang::Hi
    } else if i == 6 {
        Lang::Ja
    } else if i == 7 {
        Lang::Ko
    } else if i == 8 {
        Lang::KoKp
    } else if i == 9 {
        Lang::KoKr
    } else if i == 10 {
        Lang::Pl
    } else if i == 11 {
        Lang::Ru
    } else if i == 12 {
        Lang::Th
    } else if i == 13 {
        Lang::Tr
    } else if i == 14 {
        Lang::Uk
    } else if i == 15 {
        Lang::Ur
    } else if i == 16 {
        Lang::Vi
    } else if i == 17 {
        Lang::ZhHans
    } else {
        Lang::ZhHant
    }
}

/// Every language sits at its own index.
pub proof fn lemma_lang_index_at(lang: Lang)
    ensures
        spec_lang_index(lang) < LANG_COUNT,
        spec_lang_at(spec_lang_index(lang) as int) == lang,
{
}

/// The position of `lang` in the declaration order of `Lang`.
pub fn lang_index(lang: Lang) -> (i: usize)
    ensures
        i == spec_lang_index(lang),
        i < LANG_COUNT,
{
    match lang {
        Lang::Ar => 0,
        Lang::Cjk => 1,
        Lang::El => 2,
        Lang::Fa => 3,
        Lang::He => 4,
        Lang::Hi => 5,
        Lang::Ja => 6,
        Lang::Ko => 7,
        Lang::KoKp => 8,
        Lang::KoKr => 9,
        Lang::Pl => 10,
        Lang::Ru => 11,
        Lang::Th => 12,
        Lang::Tr => 13,
        Lang::Uk => 14,
        Lang::Ur => 15,
        Lang::Vi => 16,
        Lang::ZhHans => 17,
        Lang::ZhHant => 18,
    }
}

/// The language at position `i` of the declaration order of `Lang`.
pub fn lang_at(i: usize) -> (lang: Lang)
    requires
        i < LANG_COUNT,
    ensures
        lang == spec_lang_at(i as int),
        spec_lang_index(lang) == i,
{
    if i == 0 {
        Lang::Ar
    } else if i == 1 {
        Lang::Cjk
    } else if i == 2 {
        Lang::El
    } else if i == 3 {
        Lang::Fa
    } else if i == 4 {
        Lang::He
    } else if i == 5 {
        Lang::Hi
    } else if i == 6 {
        Lang::Ja
    } else if i == 7 {
        Lang::Ko
    } else if i == 8 {
        Lang::KoKp
    } else if i == 9 {
        Lang::KoKr
    } else if i == 10 {
        Lang::Pl
    } else if i == 11 {
        Lang::Ru
    } else if i == 12 {
        Lang::Th
    } else if i == 13 {
        Lang::Tr
    } else if i == 14 {
        Lang::Uk
    } else if i == 15 {
        Lang::Ur
    } else if i == 16 {
        Lang::Vi
    } else if i == 17 {
        Lang::ZhHans
    } else {
        Lang::ZhHant
    }
}

/// The short label printed for `lang`.
pub open spec fn spec_lang_label(lang: Lang) -> Seq<char> {
    match lang {
        Lang::Ar => "ar"@,
        Lang::Cjk => "cjk"@,
        Lang::El => "el"@,
        Lang::Fa => "fa"@,
        Lang::He => "he"@,
        Lang::Hi => "hi"@,
        Lang::Ja => "ja"@,
        Lang::Ko => "ko"@,
        Lang::KoKp => "dprk"@,
        Lang::KoKr => "rok"@,
        Lang::Pl => "pl"@,
        Lang::Ru => "ru"@,
        Lang::Th => "th"@,
        Lang::Tr => "tr"@,
        Lang::Uk => "uk"@,
        Lang::Ur => "ur"@,
        Lang::Vi => "vi"@,
        Lang::ZhHans => "cn"@,
        Lang::ZhHant => "tw"@,
    }
}

/// The short label printed for `lang`.
pub fn lang_label(lang: Lang) -> (label: &'static str)
    ensures
        label@ == spec_lang_label(lang),
{
    match lang {
        Lang::Ar => "ar",
        Lang::Cjk => "cjk",
        Lang::El => "el",
        Lang::Fa => "fa",
        Lang::He => "he",
        Lang::Hi => "hi",
        Lang::Ja => "ja",
        Lang::Ko => "ko",
        Lang::KoKp => "dprk",
        Lang::KoKr => "rok",
        Lang::Pl => "pl",
        Lang::Ru => "ru",
        Lang::Th => "th",
        Lang::Tr => "tr",
        Lang::Uk => "uk",
        Lang::Ur => "ur",
        Lang::Vi => "vi",
        Lang::ZhHans => "cn",
        Lang::ZhHant => "tw",
    }
}

/// The position of the label of `lang` in the alphabetical order of all labels.
pub open spec fn spec_label_rank(lang: Lang) -> nat {
    match lang {
        Lang::Ar => 0,
        Lang::Cjk => 1,
        Lang::ZhHans => 2,
        Lang::KoKp => 3,
        Lang::El => 4,
        Lang::Fa => 5,
        Lang::He => 6,
        Lang::Hi => 7,
        Lang::Ja => 8,
        Lang::Ko => 9,
        Lang::Pl => 10,
        Lang::KoKr => 11,
        Lang::Ru => 12,
        Lang::Th => 13,
        Lang::Tr => 14,
        Lang::ZhHant => 15,
        Lang::Uk => 16,
        Lang::Ur => 17,
        Lang::Vi => 18,
    }
}

/// The position of the label of `lang` in the alphabetical order of all labels.
pub fn label_rank(lang: Lang) -> (r: usize)
    ensures
        r == spec_label_rank(lang),
        r < LANG_COUNT,
{
    match lang {
        Lang::Ar => 0,
        Lang::Cjk => 1,
        Lang::ZhHans => 2,
        Lang::KoKp => 3,
        Lang::El => 4,
        Lang::Fa => 5,
        Lang::He => 6,
        Lang::Hi => 7,
        Lang::Ja => 8,
        Lang::Ko => 9,
        Lang::Pl => 10,
        Lang::KoKr => 11,
        Lang::Ru => 12,
        Lang::Th => 13,
        Lang::Tr => 14,
        Lang::ZhHant => 15,
        Lang::Uk => 16,
        Lang::Ur => 17,
        Lang::Vi => 18,
    }
}

/// The language whose label has position `r` in the alphabetical order of labels.
pub open spec fn spec_lang_of_rank(r: int) -> Lang
    recommends
        0 <= r < LANG_COUNT,
{
    if r == 0 {
        Lang::Ar
    } else if r == 1 {
        Lang::Cjk
    } else if r == 2 {
        Lang::ZhHans
    } else if r == 3 {
        Lang::KoKp
    } else if r == 4 {
        Lang::El
    } else if r == 5 {
        Lang::Fa
    } else if r == 6 {
        Lang::He
    } else if r == 7 {
        Lang::Hi
    } else if r == 8 {
        Lang::Ja
    } else if r == 9 {
        Lang::Ko
    } else if r == 10 {
        Lang::Pl
    } else if r == 11 {
        Lang::KoKr
    } else if r == 12 {
        Lang::Ru
    } else if r == 13 {
        Lang::Th
    } else if r == 14 {
        Lang::Tr
    } else if r == 15 {
        Lang::ZhHant
    } else if r == 16 {
        Lang::Uk
    } else if r == 17 {
        Lang::Ur
    } else {
        Lang::Vi
    }
}

/// Every language has its own label rank.
pub proof fn lemma_label_rank_inverse(lang: Lang)
    ensures
        spec_label_rank(lang) < LANG_COUNT,
        spec_lang_of_rank(spec_label_rank(lang) as int) == lang,
{
}

/// The language whose label has position `r` in the alphabetical order of labels.
pub fn lang_of_rank(r: usize) -> (lang: Lang)
    requires
        r < LANG_COUNT,
    ensures
        lang == spec_lang_of_rank(r as int),
        spec_label_rank(lang) == r,
{
    if r == 0 {
        Lang::Ar
    } else if r == 1 {
        Lang::Cjk
    } else if r == 2 {
        Lang::ZhHans
    } else if r == 3 {
        Lang::KoKp
    } else if r == 4 {
        Lang::El
    } else if r == 5 {
        Lang::Fa
    } else if r == 6 {
        Lang::He
    } else if r == 7 {
        Lang::Hi
    } else if r == 8 {
        Lang::Ja
    } else if r == 9 {
        Lang::Ko
    } else if r == 10 {
        Lang::Pl
    } else if r == 11 {
        Lang::KoKr
    } else if r == 12 {
        Lang::Ru
    } else if r == 13 {
        Lang::Th
    } else if r == 14 {
        Lang::Tr
    } else if r == 15 {
        Lang::ZhHant
    } else if r == 16 {
        Lang::Uk
    } else if r == 17 {
        Lang::Ur
    } else {
        Lang::Vi
    }
}

/// The language that a lower-case, trimmed name stands for, if any.
pub open spec fn spec_lang_named(name: Seq<char>) -> Option<Lang> {
    if name == "ar"@ || name == "ara"@ || name == "arabic"@ {
        Some(Lang::Ar)
    } else if name == "cjk"@ {
        Some(Lang::Cjk)
    } else if name == "el"@ || name == "ell"@ || name == "greek"@ || name == "gr"@ {
        Some(Lang::El)
    } else if name == "fa"@ || name == "fas"@ || name == "per"@ || name == "persian"@ || name == "farsi"@ {
        Some(Lang::Fa)
    } else if name == "he"@ || name == "heb"@ || name == "hebrew"@ {
        Some(Lang::He)
    } else if name == "hi"@ || name == "hin"@ || name == "hindi"@ {
        Some(Lang::Hi)
    } else if name == "ja"@ || name == "jpn"@ || name == "japanese"@ {
        Some(Lang::Ja)
    } else if name == "ko"@ || name == "kor"@ || name == "korean"@ {
        Some(Lang::Ko)
    } else if name == "ko-kp"@ || name == "kp"@ || name == "dprk"@ || name == "north-korea"@ {
        Some(Lang::KoKp)
    } else if name == "ko-kr"@ || name == "kr"@ || name == "rok"@ || name == "south-korea"@ {
        Some(Lang::KoKr)
    } else if name == "pl"@ || name == "pol"@ || name == "polish"@ {
        Some(Lang::Pl)
    } else if name == "ru"@ || name == "rus"@ || name == "russian"@ {
        Some(Lang::Ru)
    } else if name == "th"@ || name == "tha"@ || name == "thai"@ {
        Some(Lang::Th)
    } else if name == "tr"@ || name == "tur"@ || name == "turkish"@ {
        Some(Lang::Tr)
    } else if name == "uk"@ || name == "ukr"@ || name == "ukrainian"@ {
        Some(Lang::Uk)
    } else if name == "ur"@ || name == "urd"@ || name == "urdu"@ {
        Some(Lang::Ur)
    } else if name == "vi"@ || name == "vie"@ || name == "vietnamese"@ {
        Some(Lang::Vi)
    } else if name == "zh-cn"@ || name == "zh-hans"@ || name == "zh-hans-cn"@ || name == "zh_simplified"@ || name == "cn"@ {
        Some(Lang::ZhHans)
    } else if name == "zh-tw"@ || name == "zh-hant"@ || name == "zh-hant-tw"@ || name == "zh_traditional"@ || name == "tw"@ {
        Some(Lang::ZhHant)
    } else {
        None
    }
}

/// The name under which `s` is looked up: trimmed and in ASCII lower case.
pub open spec fn lang_name(s: Seq<char>) -> Seq<char> {
    ascii_lowercase(trim(s))
}

/// The language that `s` names, or the message that rejects it.
pub open spec fn spec_parse_lang(s: Seq<char>) -> Result<Lang, Seq<char>> {
    match spec_lang_named(lang_name(s)) {
        Some(lang) => Ok(lang),
        None => Err("unknown lang: "@ + lang_name(s)),
    }
}

fn lang_named(name: &[char]) -> (r: Option<Lang>)
    ensures
        r == spec_lang_named(name@),
{
    if chars_equal_str(name, "ar") || chars_equal_str(name, "ara") || chars_equal_str(name, "arabic") {
        Some(Lang::Ar)
    } else if chars_equal_str(name, "cjk") {
        Some(Lang::Cjk)
    } else if chars_equal_str(name, "el") || chars_equal_str(name, "ell") || chars_equal_str(name, "greek") || chars_equal_str(name, "gr") {
        Some(Lang::El)
    } else if chars_equal_str(name, "fa") || chars_equal_str(name, "fas") || chars_equal_str(name, "per") || chars_equal_str(name, "persian") || chars_equal_str(name, "farsi") {
        Some(Lang::Fa)
    } else if chars_equal_str(name, "he") || chars_equal_str(name, "heb") || chars_equal_str(name, "hebrew") {
        Some(Lang::He)
    } else if chars_equal_str(name, "hi") || chars_equal_str(name, "hin") || chars_equal_str(name, "hindi") {
        Some(Lang::Hi)
    } else if chars_equal_str(name, "ja") || chars_equal_str(name, "jpn") || chars_equal_str(name, "japanese") {
        Some(Lang::Ja)
    } else if chars_equal_str(name, "ko") || chars_equal_str(name, "kor") || chars_equal_str(name, "korean") {
        Some(Lang::Ko)
    } else if chars_equal_str(name, "ko-kp") || chars_equal_str(name, "kp") || chars_equal_str(name, "dprk") || chars_equal_str(name, "north-korea") {
        Some(Lang::KoKp)
    } else if chars_equal_str(name, "ko-kr") || chars_equal_str(name, "kr") || chars_equal_str(name, "rok") || chars_equal_str(name, "south-korea") {
        Some(Lang::KoKr)
    } else if chars_equal_str(name, "pl") || chars_equal_str(name, "pol") || chars_equal_str(name, "polish") {
        Some(Lang::Pl)
    } else if chars_equal_str(name, "ru") || chars_equal_str(name, "rus") || chars_equal_str(name, "russian") {
        Some(Lang::Ru)
    } else if chars_equal_str(name, "th") || chars_equal_str(name, "tha") || chars_equal_str(name, "thai") {
        Some(Lang::Th)
    } else if chars_equal_str(name, "tr") || chars_equal_str(name, "tur") || chars_equal_str(name, "turkish") {
        Some(Lang::Tr)
    } else if chars_equal_str(name, "uk") || chars_equal_str(name, "ukr") || chars_equal_str(name, "ukrainian") {
        Some(Lang::Uk)
    } else if chars_equal_str(name, "ur") || chars_equal_str(name, "urd") || chars_equal_str(name, "urdu") {
        Some(Lang::Ur)
    } else if chars_equal_str(name, "vi") || chars_equal_str(name, "vie") || chars_equal_str(name, "vietnamese") {
        Some(Lang::Vi)
    } else if chars_equal_str(name, "zh-cn") || chars_equal_str(name, "zh-hans") || chars_equal_str(name, "zh-hans-cn") || chars_equal_str(name, "zh_simplified") || chars_equal_str(name, "cn") {
        Some(Lang::ZhHans)
    } else if chars_equal_str(name, "zh-tw") || chars_equal_str(name, "zh-hant") || chars_equal_str(name, "zh-hant-tw") || chars_equal_str(name, "zh_traditional") || chars_equal_str(name, "tw") {
        Some(Lang::ZhHant)
    } else {
        None
    }
}

/// Parses a language name: surrounding whitespace is ignored and ASCII letters
/// match in either case. An unknown name gives the message `unknown lang: <name>`.
pub fn parse_lang(s: &str) -> (r: Result<Lang, String>)
    ensures
        match r {
            Ok(lang) => spec_parse_lang(s@) == Ok::<Lang, Seq<char>>(lang),
            Err(msg) => spec_parse_lang(s@) == Err::<Lang, Seq<char>>(msg@),
        },
{
    let chars = chars_of(s);
    let trimmed = trim_chars(&chars);
    let name = lowercase_chars(&trimmed);
    match lang_named(&name) {
        Some(lang) => Ok(lang),
        None => {
            let mut msg = "unknown lang: ".to_owned();
            let mut i: usize = 0;
            while i < name.len()
                invariant
                    i <= name.len(),
                    msg@ == "unknown lang: "@ + name@.take(i as int),
                decreases name.len() - i,
            {
                push_char(&mut msg, name[i]);
                assert(name@.take(i + 1) == name@.take(i as int).push(name@[i as int]));
                i = i + 1;
            }
            assert(name@.take(name@.len() as int) == name@);
            Err(msg)
        },
    }
}

/// Parsing normalises the name once and for all: the normalised name is its
/// own normal form, so parsing it gives the same result as parsing the
/// original, and an unknown name is refused with `unknown lang: ` and the
/// normalised name.
pub proof fn lemma_parse_normalised(s: Seq<char>)
    ensures
        lang_name(lang_name(s)) == lang_name(s),
        spec_parse_lang(lang_name(s)) == spec_parse_lang(s),
        spec_lang_named(lang_name(s)) is None ==> spec_parse_lang(s) == Err::<Lang, Seq<char>>("unknown lang: "@ + lang_name(s)),
{
    crate::text::lemma_normalise_idempotent(s);
}

impl std::str::FromStr for Lang {
    type Err = String;

    fn from_str(s: &str) -> (r: Result<Lang, String>)
        ensures
            match r {
                Ok(lang) => spec_parse_lang(s@) == Ok::<Lang, Seq<char>>(lang),
                Err(msg) => spec_parse_lang(s@) == Err::<Lang, Seq<char>>(msg@),
            },
    {
        parse_lang(s)
    }
}

/// The languages scanned for when none is selected.
pub const DEFAULT_LANGS: [Lang; 15] = [
    Lang::Ar,
    Lang::Cjk,
    Lang::El,
    Lang::Fa,
    Lang::He,
    Lang::Hi,
    Lang::Ja,
    Lang::Ko,
    Lang::Pl,
    Lang::Ru,
    Lang::Th,
    Lang::Tr,
    Lang::Uk,
    Lang::Ur,
    Lang::Vi,
];

/// `lang` is scanned for when `selected` is selected: the default languages
/// stand in for an empty selection; `cjk` brings `cn`, `tw` and `ja`, and `ko`
/// brings `dprk` and `rok`.
pub open spec fn lang_requested(selected: Seq<Lang>, lang: Lang) -> bool {
    let base = if selected.len() == 0 {
        DEFAULT_LANGS@
    } else {
        selected
    };
    ||| base.contains(lang)
    ||| (lang == Lang::ZhHans || lang == Lang::ZhHant || lang == Lang::Ja) && base.contains(Lang::Cjk)
    ||| (lang == Lang::KoKp || lang == Lang::KoKr) && base.contains(Lang::Ko)
}

fn contains_lang(langs: &[Lang], lang: Lang) -> (r: bool)
    ensures
        r == langs@.contains(lang),
{
    let mut i: usize = 0;
    while i < langs.len()
        invariant
            i <= langs.len(),
            forall|j: int| 0 <= j < i ==> langs@[j] != lang,
        decreases langs.len() - i,
    {
        if langs[i] == lang {
            return true;
        }
        i = i + 1;
    }
    false
}

/// The languages to scan for, given the selected ones: each requested language
/// once, in the declaration order of `Lang`.
pub fn resolve_langs(selected: &[Lang]) -> (langs: Vec<Lang>)
    ensures
        forall|lang: Lang| #[trigger] langs@.contains(lang) <==> lang_requested(selected@, lang),
        forall|i: int, j: int| 0 <= i < j < langs@.len() ==> spec_lang_index(langs@[i]) < spec_lang_index(langs@[j]),
{
    let base: &[Lang] = if selected.len() == 0 {
        &DEFAULT_LANGS
    } else {
        selected
    };
    let with_cjk = contains_lang(base, Lang::Cjk);
    let with_ko = contains_lang(base, Lang::Ko);
    let mut langs: Vec<Lang> = Vec::new();
    let mut idx: usize = 0;
    while idx < LANG_COUNT
        invariant
            idx <= LANG_COUNT,
            base@ == if selected@.len() == 0 {
                DEFAULT_LANGS@
            } else {
                selected@
            },
            with_cjk == base@.contains(Lang::Cjk),
            with_ko == base@.contains(Lang::Ko),
            forall|lang: Lang| #[trigger] langs@.contains(lang) <==> (spec_lang_index(lang) < idx && lang_requested(selected@, lang)),
            forall|i: int, j: int| 0 <= i < j < langs@.len() ==> spec_lang_index(langs@[i]) < spec_lang_index(langs@[j]),
            forall|i: int| 0 <= i < langs@.len() ==> spec_lang_index(#[trigger] langs@[i]) < idx,
        decreases LANG_COUNT - idx,
    {
        let lang = lang_at(idx);
        let wanted = contains_lang(base, lang) || ((lang == Lang::ZhHans || lang == Lang::ZhHant
            || lang == Lang::Ja) && with_cjk) || ((lang == Lang::KoKp || lang == Lang::KoKr)
            && with_ko);
        let ghost before = langs@;
        if wanted {
            langs.push(lang);
        }
        proof {
            assert forall|l: Lang| #[trigger] langs@.contains(l) <==> (spec_lang_index(l) < idx + 1 && lang_requested(selected@, l)) by {
                lemma_lang_index_at(l);
                if spec_lang_index(l) == idx {
                    assert(l == lang);
                    if wanted {
                        assert(langs@[langs@.len() - 1] == l);
                    }
                }
                if langs@.contains(l) && !before.contains(l) {
                    let k = choose|k: int| 0 <= k < langs@.len() && langs@[k] == l;
                    assert(k == langs@.len() - 1);
                }
                if before.contains(l) {
                    let k = choose|k: int| 0 <= k < before.len() && before[k] == l;
                    assert(langs@[k] == l);
                }
            }
        }
        idx = idx + 1;
    }
    langs
}

proof fn lemma_plain_name(s: Seq<char>)
    requires
        s.len() > 0,
        forall|i: int| 0 <= i < s.len() ==> ('a' <= #[trigger] s[i] && s[i] <= 'z'),
    ensures
        lang_name(s) == s,
{
    assert(trim_start(s) == s);
    assert(trim_end(s) == s);
    assert(ascii_lowercase(s) =~= s);
}

proof fn lemma_plain_selector(s: Seq<char>)
    requires
        s.len() > 0,
        forall|i: int| 0 <= i < s.len() ==> ('a' <= #[trigger] s[i] && s[i] <= 'z') || s[i] == '-' || s[i] == '_',
    ensures
        lang_name(s) == s,
{
    assert(trim_start(s) == s);
    assert(trim_end(s) == s);
    assert(ascii_lowercase(s) =~= s);
}

proof fn lemma_aliases_ar()
    ensures
        spec_parse_lang("ar"@) == Ok::<Lang, Seq<char>>(Lang::Ar),
        spec_parse_lang("ara"@) == Ok::<Lang, Seq<char>>(Lang::Ar),
        spec_parse_lang("arabic"@) == Ok::<Lang, Seq<char>>(Lang::Ar),
{
    reveal_strlit("ar");
    reveal_strlit("ara");
    reveal_strlit("arabic");
    lemma_plain_selector("ar"@);
    lemma_plain_selector("ara"@);
    lemma_plain_selector("arabic"@);
}

proof fn lemma_aliases_cjk()
    ensures
        spec_parse_lang("cjk"@) == Ok::<Lang, Seq<char>>(Lang::Cjk),
{
    reveal_strlit("ar");
    reveal_strlit("ara");
    reveal_strlit("arabic");
    reveal_strlit("cjk");
    lemma_plain_selector("cjk"@);
}

proof fn lemma_aliases_el()
    ensures
        spec_parse_lang("el"@) == Ok::<Lang, Seq<char>>(Lang::El),
        spec_parse_lang("ell"@) == Ok::<Lang, Seq<char>>(Lang::El),
        spec_parse_lang("greek"@) == Ok::<Lang, Seq<char>>(Lang::El),
        spec_parse_lang("gr"@) == Ok::<Lang, Seq<char>>(Lang::El),
{
    reveal_strlit("ar");
    reveal_strlit("ara");
    reveal_strlit("arabic");
    reveal_strlit("cjk");
    reveal_strlit("el");
    reveal_strlit("ell");
    reveal_strlit("greek");
    reveal_strlit("gr");
    lemma_plain_selector("el"@);
    lemma_plain_selector("ell"@);
    lemma_plain_selector("greek"@);
    lemma_plain_selector("gr"@);
}

proof fn lemma_aliases_fa()
    ensures
        spec_parse_lang("fa"@) == Ok::<Lang, Seq<char>>(Lang::Fa),
        spec_parse_lang("fas"@) == Ok::<Lang, Seq<char>>(Lang::Fa),
        spec_parse_lang("per"@) == Ok::<Lang, Seq<char>>(Lang::Fa),
        spec_parse_lang("persian"@) == Ok::<Lang, Seq<char>>(Lang::Fa),
        spec_parse_lang("farsi"@) == Ok::<Lang, Seq<char>>(Lang::Fa),
{
    reveal_strlit("ar");
    reveal_strlit("ara");
    reveal_strlit("arabic");
    reveal_strlit("cjk");
    reveal_strlit("el");
    reveal_strlit("ell");
    reveal_strlit("greek");
    reveal_strlit("gr");
    reveal_strlit("fa");
    reveal_strlit("fas");
    reveal_strlit("per");
    reveal_strlit("persian");
    reveal_strlit("farsi");
    lemma_plain_selector("fa"@);
    lemma_plain_selector("fas"@);
    lemma_plain_selector("per"@);
    lemma_plain_selector("persian"@);
    lemma_plain_selector("farsi"@);
}

proof fn lemma_aliases_he()
    ensures
        spec_parse_lang("he"@) == Ok::<Lang, Seq<char>>(Lang::He),
        spec_parse_lang("heb"@) == Ok::<Lang, Seq<char>>(Lang::He),
        spec_parse_lang("hebrew"@) == Ok::<Lang, Seq<char>>(Lang::He),
{
    reveal_strlit("ar");
    reveal_strlit("ara");
    reveal_strlit("arabic");
    reveal_strlit("cjk");
    reveal_strlit("el");
    reveal_strlit("ell");
    reveal_strlit("greek");
    reveal_strlit("gr");
    reveal_strlit("fa");
    reveal_strlit("fas");
    reveal_strlit("per");
    reveal_strlit("persian");
    reveal_strlit("farsi");
    reveal_strlit("he");
    reveal_strlit("heb");
    reveal_strlit("hebrew");
    lemma_plain_selector("he"@);
    lemma_plain_selector("heb"@);
    lemma_plain_selector("hebrew"@);
}

proof fn lemma_aliases_hi()
    ensures
        spec_parse_lang("hi"@) == Ok::<Lang, Seq<char>>(Lang::Hi),
        spec_parse_lang("hin"@) == Ok::<Lang, Seq<char>>(Lang::Hi),
        spec_parse_lang("hindi"@) == Ok::<Lang, Seq<char>>(Lang::Hi),
{
    reveal_strlit("ar");
    reveal_strlit("ara");
    reveal_strlit("arabic");
    reveal_strlit("cjk");
    reveal_strlit("el");
    reveal_strlit("ell");
    reveal_strlit("greek");
    reveal_strlit("gr");
    reveal_strlit("fa");
    reveal_strlit("fas");
    reveal_strlit("per");
    reveal_strlit("persian");
    reveal_strlit("farsi");
    reveal_strlit("he");
    reveal_strlit("heb");
    reveal_strlit("hebrew");
    reveal_strlit("hi");
    reveal_strlit("hin");
    reveal_strlit("hindi");
    lemma_plain_selector("hi"@);
    lemma_plain_selector("hin"@);
    lemma_plain_selector("hindi"@);
}

proof fn lemma_aliases_ja()
    ensures
        spec_parse_lang("ja"@) == Ok::<Lang, Seq<char>>(Lang::Ja),
        spec_parse_lang("jpn"@) == Ok::<Lang, Seq<char>>(Lang::Ja),
        spec_parse_lang("japanese"@) == Ok::<Lang, Seq<char>>(Lang::Ja),
{
    reveal_strlit("ar");
    reveal_strlit("ara");
    reveal_strlit("arabic");
    reveal_strlit("cjk");
    reveal_strlit("el");
    reveal_strlit("ell");
    reveal_strlit("greek");
    reveal_strlit("gr");
    reveal_strlit("fa");
    reveal_strlit("fas");
    reveal_strlit("per");
    reveal_strlit("persian");
    reveal_strlit("farsi");
    reveal_strlit("he");
    reveal_strlit("heb");
    reveal_strlit("hebrew");
    reveal_strlit("hi");
    reveal_strlit("hin");
    reveal_strlit("hindi");
    reveal_strlit("ja");
    reveal_strlit("jpn");
    reveal_strlit("japanese");
    lemma_plain_selector("ja"@);
    lemma_plain_selector("jpn"@);
    lemma_plain_selector("japanese"@);
}

proof fn lemma_aliases_ko()
    ensures
        spec_parse_lang("ko"@) == Ok::<Lang, Seq<char>>(Lang::Ko),
        spec_parse_lang("kor"@) == Ok::<Lang, Seq<char>>(Lang::Ko),
        spec_parse_lang("korean"@) == Ok::<Lang, Seq<char>>(Lang::Ko),
{
    reveal_strlit("ar");
    reveal_strlit("ara");
    reveal_strlit("arabic");
    reveal_strlit("cjk");
    reveal_strlit("el");
    reveal_strlit("ell");
    reveal_strlit("greek");
    reveal_strlit("gr");
    reveal_strlit("fa");
    reveal_strlit("fas");
    reveal_strlit("per");
    reveal_strlit("persian");
    reveal_strlit("farsi");
    reveal_strlit("he");
    reveal_strlit("heb");
    reveal_strlit("hebrew");
    reveal_strlit("hi");
    reveal_strlit("hin");
    reveal_strlit("hindi");
    reveal_strlit("ja");
    reveal_strlit("jpn");
    reveal_strlit("japanese");
    reveal_strlit("ko");
    reveal_strlit("kor");
    reveal_strlit("korean");
    lemma_plain_selector("ko"@);
    lemma_plain_selector("kor"@);
    lemma_plain_selector("korean"@);
}

proof fn lemma_aliases_kokp()
    ensures
        spec_parse_lang("ko-kp"@) == Ok::<Lang, Seq<char>>(Lang::KoKp),
        spec_parse_lang("kp"@) == Ok::<Lang, Seq<char>>(Lang::KoKp),
        spec_parse_lang("dprk"@) == Ok::<Lang, Seq<char>>(Lang::KoKp),
        spec_parse_lang("north-korea"@) == Ok::<Lang, Seq<char>>(Lang::KoKp),
{
    reveal_strlit("ar");
    reveal_strlit("ara");
    reveal_strlit("arabic");
    reveal_strlit("cjk");
    reveal_strlit("el");
    reveal_strlit("ell");
    reveal_strlit("greek");
    reveal_strlit("gr");
    reveal_strlit("fa");
    reveal_strlit("fas");
    reveal_strlit("per");
    reveal_strlit("persian");
    reveal_strlit("farsi");
    reveal_strlit("he");
    reveal_strlit("heb");
    reveal_strlit("hebrew");
    reveal_strlit("hi");
    reveal_strlit("hin");
    reveal_strlit("hindi");
    reveal_strlit("ja");
    reveal_strlit("jpn");
    reveal_strlit("japanese");
    reveal_strlit("ko");
    reveal_strlit("kor");
    reveal_strlit("korean");
    reveal_strlit("ko-kp");
    reveal_strlit("kp");
    reveal_strlit("dprk");
    reveal_strlit("north-korea");
    lemma_plain_selector("ko-kp"@);
    lemma_plain_selector("kp"@);
    lemma_plain_selector("dprk"@);
    lemma_plain_selector("north-korea"@);
}

proof fn lemma_aliases_kokr()
    ensures
        spec_parse_lang("ko-kr"@) == Ok::<Lang, Seq<char>>(Lang::KoKr),
        spec_parse_lang("kr"@) == Ok::<Lang, Seq<char>>(Lang::KoKr),
        spec_parse_lang("rok"@) == Ok::<Lang, Seq<char>>(Lang::KoKr),
        spec_parse_lang("south-korea"@) == Ok::<Lang, Seq<char>>(Lang::KoKr),
{
    reveal_strlit("ar");
    reveal_strlit("ara");
    reveal_strlit("arabic");
    reveal_strlit("cjk");
    reveal_strlit("el");
    reveal_strlit("ell");
    reveal_strlit("greek");
    reveal_strlit("gr");
    reveal_strlit("fa");
    reveal_strlit("fas");
    reveal_strlit("per");
    reveal_strlit("persian");
    reveal_strlit("farsi");
    reveal_strlit("he");
    reveal_strlit("heb");
    reveal_strlit("hebrew");
    reveal_strlit("hi");
    reveal_strlit("hin");
    reveal_strlit("hindi");
    reveal_strlit("ja");
    reveal_strlit("jpn");
    reveal_strlit("japanese");
    reveal_strlit("ko");
    reveal_strlit("kor");
    reveal_strlit("korean");
    reveal_strlit("ko-kp");
    reveal_strlit("kp");
    reveal_strlit("dprk");
    reveal_strlit("north-korea");
    reveal_strlit("ko-kr");
    reveal_strlit("kr");
    reveal_strlit("rok");
    reveal_strlit("south-korea");
    lemma_plain_selector("ko-kr"@);
    lemma_plain_selector("kr"@);
    lemma_plain_selector("rok"@);
    lemma_plain_selector("south-korea"@);
}

proof fn lemma_aliases_pl()
    ensures
        spec_parse_lang("pl"@) == Ok::<Lang, Seq<char>>(Lang::Pl),
        spec_parse_lang("pol"@) == Ok::<Lang, Seq<char>>(Lang::Pl),
        spec_parse_lang("polish"@) == Ok::<Lang, Seq<char>>(Lang::Pl),
{
    reveal_strlit("ar");
    reveal_strlit("ara");
    reveal_strlit("arabic");
    reveal_strlit("cjk");
    reveal_strlit("el");
    reveal_strlit("ell");
    reveal_strlit("greek");
    reveal_strlit("gr");
    reveal_strlit("fa");
    reveal_strlit("fas");
    reveal_strlit("per");
    reveal_strlit("persian");
    reveal_strlit("farsi");
    reveal_strlit("he");
    reveal_strlit("heb");
    reveal_strlit("hebrew");
    reveal_strlit("hi");
    reveal_strlit("hin");
    reveal_strlit("hindi");
    reveal_strlit("ja");
    reveal_strlit("jpn");
    reveal_strlit("japanese");
    reveal_strlit("ko");
    reveal_strlit("kor");
    reveal_strlit("korean");
    reveal_strlit("ko-kp");
    reveal_strlit("kp");
    reveal_strlit("dprk");
    reveal_strlit("north-korea");
    reveal_strlit("ko-kr");
    reveal_strlit("kr");
    reveal_strlit("rok");
    reveal_strlit("south-korea");
    reveal_strlit("pl");
    reveal_strlit("pol");
    reveal_strlit("polish");
    lemma_plain_selector("pl"@);
    lemma_plain_selector("pol"@);
    lemma_plain_selector("polish"@);
}

proof fn lemma_aliases_ru()
    ensures
        spec_parse_lang("ru"@) == Ok::<Lang, Seq<char>>(Lang::Ru),
        spec_parse_lang("rus"@) == Ok::<Lang, Seq<char>>(Lang::Ru),
        spec_parse_lang("russian"@) == Ok::<Lang, Seq<char>>(Lang::Ru),
{
    reveal_strlit("ar");
    reveal_strlit("ara");
    reveal_strlit("arabic");
    reveal_strlit("cjk");
    reveal_strlit("el");
    reveal_strlit("ell");
    reveal_strlit("greek");
    reveal_strlit("gr");
    reveal_strlit("fa");
    reveal_strlit("fas");
    reveal_strlit("per");
    reveal_strlit("persian");
    reveal_strlit("farsi");
    reveal_strlit("he");
    reveal_strlit("heb");
    reveal_strlit("hebrew");
    reveal_strlit("hi");
    reveal_strlit("hin");
    reveal_strlit("hindi");
    reveal_strlit("ja");
    reveal_strlit("jpn");
    reveal_strlit("japanese");
    reveal_strlit("ko");
    reveal_strlit("kor");
    reveal_strlit("korean");
    reveal_strlit("ko-kp");
    reveal_strlit("kp");
    reveal_strlit("dprk");
    reveal_strlit("north-korea");
    reveal_strlit("ko-kr");
    reveal_strlit("kr");
    reveal_strlit("rok");
    reveal_strlit("south-korea");
    reveal_strlit("pl");
    reveal_strlit("pol");
    reveal_strlit("polish");
    reveal_strlit("ru");
    reveal_strlit("rus");
    reveal_strlit("russian");
    lemma_plain_selector("ru"@);
    lemma_plain_selector("rus"@);
    lemma_plain_selector("russian"@);
}

proof fn lemma_aliases_th()
    ensures
        spec_parse_lang("th"@) == Ok::<Lang, Seq<char>>(Lang::Th),
        spec_parse_lang("tha"@) == Ok::<Lang, Seq<char>>(Lang::Th),
        spec_parse_lang("thai"@) == Ok::<Lang, Seq<char>>(Lang::Th),
{
    reveal_strlit("ar");
    reveal_strlit("ara");
    reveal_strlit("arabic");
    reveal_strlit("cjk");
    reveal_strlit("el");
    reveal_strlit("ell");
    reveal_strlit("greek");
    reveal_strlit("gr");
    reveal_strlit("fa");
    reveal_strlit("fas");
    reveal_strlit("per");
    reveal_strlit("persian");
    reveal_strlit("farsi");
    reveal_strlit("he");
    reveal_strlit("heb");
    reveal_strlit("hebrew");
    reveal_strlit("hi");
    reveal_strlit("hin");
    reveal_strlit("hindi");
    reveal_strlit("ja");
    reveal_strlit("jpn");
    reveal_strlit("japanese");
    reveal_strlit("ko");
    reveal_strlit("kor");
    reveal_strlit("korean");
    reveal_strlit("ko-kp");
    reveal_strlit("kp");
    reveal_strlit("dprk");
    reveal_strlit("north-korea");
    reveal_strlit("ko-kr");
    reveal_strlit("kr");
    reveal_strlit("rok");
    reveal_strlit("south-korea");
    reveal_strlit("pl");
    reveal_strlit("pol");
    reveal_strlit("polish");
    reveal_strlit("ru");
    reveal_strlit("rus");
    reveal_strlit("russian");
    reveal_strlit("th");
    reveal_strlit("tha");
    reveal_strlit("thai");
    lemma_plain_selector("th"@);
    lemma_plain_selector("tha"@);
    lemma_plain_selector("thai"@);
}

proof fn lemma_aliases_tr()
    ensures
        spec_parse_lang("tr"@) == Ok::<Lang, Seq<char>>(Lang::Tr),
        spec_parse_lang("tur"@) == Ok::<Lang, Seq<char>>(Lang::Tr),
        spec_parse_lang("turkish"@) == Ok::<Lang, Seq<char>>(Lang::Tr),
{
    reveal_strlit("ar");
    reveal_strlit("ara");
    reveal_strlit("arabic");
    reveal_strlit("cjk");
    reveal_strlit("el");
    reveal_strlit("ell");
    reveal_strlit("greek");
    reveal_strlit("gr");
    reveal_strlit("fa");
    reveal_strlit("fas");
    reveal_strlit("per");
    reveal_strlit("persian");
    reveal_strlit("farsi");
    reveal_strlit("he");
    reveal_strlit("heb");
    reveal_strlit("hebrew");
    reveal_strlit("hi");
    reveal_strlit("hin");
    reveal_strlit("hindi");
    reveal_strlit("ja");
    reveal_strlit("jpn");
    reveal_strlit("japanese");
    reveal_strlit("ko");
    reveal_strlit("kor");
    reveal_strlit("korean");
    reveal_strlit("ko-kp");
    reveal_strlit("kp");
    reveal_strlit("dprk");
    reveal_strlit("north-korea");
    reveal_strlit("ko-kr");
    reveal_strlit("kr");
    reveal_strlit("rok");
    reveal_strlit("south-korea");
    reveal_strlit("pl");
    reveal_strlit("pol");
    reveal_strlit("polish");
    reveal_strlit("ru");
    reveal_strlit("rus");
    reveal_strlit("russian");
    reveal_strlit("th");
    reveal_strlit("tha");
    reveal_strlit("thai");
    reveal_strlit("tr");
    reveal_strlit("tur");
    reveal_strlit("turkish");
    lemma_plain_selector("tr"@);
    lemma_plain_selector("tur"@);
    lemma_plain_selector("turkish"@);
}

proof fn lemma_aliases_uk()
    ensures
        spec_parse_lang("uk"@) == Ok::<Lang, Seq<char>>(Lang::Uk),
        spec_parse_lang("ukr"@) == Ok::<Lang, Seq<char>>(Lang::Uk),
        spec_parse_lang("ukrainian"@) == Ok::<Lang, Seq<char>>(Lang::Uk),
{
    reveal_strlit("ar");
    reveal_strlit("ara");
    reveal_strlit("arabic");
    reveal_strlit("cjk");
    reveal_strlit("el");
    reveal_strlit("ell");
    reveal_strlit("greek");
    reveal_strlit("gr");
    reveal_strlit("fa");
    reveal_strlit("fas");
    reveal_strlit("per");
    reveal_strlit("persian");
    reveal_strlit("farsi");
    reveal_strlit("he");
    reveal_strlit("heb");
    reveal_strlit("hebrew");
    reveal_strlit("hi");
    reveal_strlit("hin");
    reveal_strlit("hindi");
    reveal_strlit("ja");
    reveal_strlit("jpn");
    reveal_strlit("japanese");
    reveal_strlit("ko");
    reveal_strlit("kor");
    reveal_strlit("korean");
    reveal_strlit("ko-kp");
    reveal_strlit("kp");
    reveal_strlit("dprk");
    reveal_strlit("north-korea");
    reveal_strlit("ko-kr");
    reveal_strlit("kr");
    reveal_strlit("rok");
    reveal_strlit("south-korea");
    reveal_strlit("pl");
    reveal_strlit("pol");
    reveal_strlit("polish");
    reveal_strlit("ru");
    reveal_strlit("rus");
    reveal_strlit("russian");
    reveal_strlit("th");
    reveal_strlit("tha");
    reveal_strlit("thai");
    reveal_strlit("tr");
    reveal_strlit("tur");
    reveal_strlit("turkish");
    reveal_strlit("uk");
    reveal_strlit("ukr");
    reveal_strlit("ukrainian");
    lemma_plain_selector("uk"@);
    lemma_plain_selector("ukr"@);
    lemma_plain_selector("ukrainian"@);
}

proof fn lemma_aliases_ur()
    ensures
        spec_parse_lang("ur"@) == Ok::<Lang, Seq<char>>(Lang::Ur),
        spec_parse_lang("urd"@) == Ok::<Lang, Seq<char>>(Lang::Ur),
        spec_parse_lang("urdu"@) == Ok::<Lang, Seq<char>>(Lang::Ur),
{
    reveal_strlit("ar");
    reveal_strlit("ara");
    reveal_strlit("arabic");
    reveal_strlit("cjk");
    reveal_strlit("el");
    reveal_strlit("ell");
    reveal_strlit("greek");
    reveal_strlit("gr");
    reveal_strlit("fa");
    reveal_strlit("fas");
    reveal_strlit("per");
    reveal_strlit("persian");
    reveal_strlit("farsi");
    reveal_strlit("he");
    reveal_strlit("heb");
    reveal_strlit("hebrew");
    reveal_strlit("hi");
    reveal_strlit("hin");
    reveal_strlit("hindi");
    reveal_strlit("ja");
    reveal_strlit("jpn");
    reveal_strlit("japanese");
    reveal_strlit("ko");
    reveal_strlit("kor");
    reveal_strlit("korean");
    reveal_strlit("ko-kp");
    reveal_strlit("kp");
    reveal_strlit("dprk");
    reveal_strlit("north-korea");
    reveal_strlit("ko-kr");
    reveal_strlit("kr");
    reveal_strlit("rok");
    reveal_strlit("south-korea");
    reveal_strlit("pl");
    reveal_strlit("pol");
    reveal_strlit("polish");
    reveal_strlit("ru");
    reveal_strlit("rus");
    reveal_strlit("russian");
    reveal_strlit("th");
    reveal_strlit("tha");
    reveal_strlit("thai");
    reveal_strlit("tr");
    reveal_strlit("tur");
    reveal_strlit("turkish");
    reveal_strlit("uk");
    reveal_strlit("ukr");
    reveal_strlit("ukrainian");
    reveal_strlit("ur");
    reveal_strlit("urd");
    reveal_strlit("urdu");
    lemma_plain_selector("ur"@);
    lemma_plain_selector("urd"@);
    lemma_plain_selector("urdu"@);
}

proof fn lemma_aliases_vi()
    ensures
        spec_parse_lang("vi"@) == Ok::<Lang, Seq<char>>(Lang::Vi),
        spec_parse_lang("vie"@) == Ok::<Lang, Seq<char>>(Lang::Vi),
        spec_parse_lang("vietnamese"@) == Ok::<Lang, Seq<char>>(Lang::Vi),
{
    reveal_strlit("ar");
    reveal_strlit("ara");
    reveal_strlit("arabic");
    reveal_strlit("cjk");
    reveal_strlit("el");
    reveal_strlit("ell");
    reveal_strlit("greek");
    reveal_strlit("gr");
    reveal_strlit("fa");
    reveal_strlit("fas");
    reveal_strlit("per");
    reveal_strlit("persian");
    reveal_strlit("farsi");
    reveal_strlit("he");
    reveal_strlit("heb");
    reveal_strlit("hebrew");
    reveal_strlit("hi");
    reveal_strlit("hin");
    reveal_strlit("hindi");
    reveal_strlit("ja");
    reveal_strlit("jpn");
    reveal_strlit("japanese");
    reveal_strlit("ko");
    reveal_strlit("kor");
    reveal_strlit("korean");
    reveal_strlit("ko-kp");
    reveal_strlit("kp");
    reveal_strlit("dprk");
    reveal_strlit("north-korea");
    reveal_strlit("ko-kr");
    reveal_strlit("kr");
    reveal_strlit("rok");
    reveal_strlit("south-korea");
    reveal_strlit("pl");
    reveal_strlit("pol");
    reveal_strlit("polish");
    reveal_strlit("ru");
    reveal_strlit("rus");
    reveal_strlit("russian");
    reveal_strlit("th");
    reveal_strlit("tha");
    reveal_strlit("thai");
    reveal_strlit("tr");
    reveal_strlit("tur");
    reveal_strlit("turkish");
    reveal_strlit("uk");
    reveal_strlit("ukr");
    reveal_strlit("ukrainian");
    reveal_strlit("ur");
    reveal_strlit("urd");
    reveal_strlit("urdu");
    reveal_strlit("vi");
    reveal_strlit("vie");
    reveal_strlit("vietnamese");
    lemma_plain_selector("vi"@);
    lemma_plain_selector("vie"@);
    lemma_plain_selector("vietnamese"@);
}

proof fn lemma_aliases_zhhans()
    ensures
        spec_parse_lang("zh-cn"@) == Ok::<Lang, Seq<char>>(Lang::ZhHans),
        spec_parse_lang("zh-hans"@) == Ok::<Lang, Seq<char>>(Lang::ZhHans),
        spec_parse_lang("zh-hans-cn"@) == Ok::<Lang, Seq<char>>(Lang::ZhHans),
        spec_parse_lang("zh_simplified"@) == Ok::<Lang, Seq<char>>(Lang::ZhHans),
        spec_parse_lang("cn"@) == Ok::<Lang, Seq<char>>(Lang::ZhHans),
{
    reveal_strlit("ar");
    reveal_strlit("ara");
    reveal_strlit("arabic");
    reveal_strlit("cjk");
    reveal_strlit("el");
    reveal_strlit("ell");
    reveal_strlit("greek");
    reveal_strlit("gr");
    reveal_strlit("fa");
    reveal_strlit("fas");
    reveal_strlit("per");
    reveal_strlit("persian");
    reveal_strlit("farsi");
    reveal_strlit("he");
    reveal_strlit("heb");
    reveal_strlit("hebrew");
    reveal_strlit("hi");
    reveal_strlit("hin");
    reveal_strlit("hindi");
    reveal_strlit("ja");
    reveal_strlit("jpn");
    reveal_strlit("japanese");
    reveal_strlit("ko");
    reveal_strlit("kor");
    reveal_strlit("korean");
    reveal_strlit("ko-kp");
    reveal_strlit("kp");
    reveal_strlit("dprk");
    reveal_strlit("north-korea");
    reveal_strlit("ko-kr");
    reveal_strlit("kr");
    reveal_strlit("rok");
    reveal_strlit("south-korea");
    reveal_strlit("pl");
    reveal_strlit("pol");
    reveal_strlit("polish");
    reveal_strlit("ru");
    reveal_strlit("rus");
    reveal_strlit("russian");
    reveal_strlit("th");
    reveal_strlit("tha");
    reveal_strlit("thai");
    reveal_strlit("tr");
    reveal_strlit("tur");
    reveal_strlit("turkish");
    reveal_strlit("uk");
    reveal_strlit("ukr");
    reveal_strlit("ukrainian");
    reveal_strlit("ur");
    reveal_strlit("urd");
    reveal_strlit("urdu");
    reveal_strlit("vi");
    reveal_strlit("vie");
    reveal_strlit("vietnamese");
    reveal_strlit("zh-cn");
    reveal_strlit("zh-hans");
    reveal_strlit("zh-hans-cn");
    reveal_strlit("zh_simplified");
    reveal_strlit("cn");
    lemma_plain_selector("zh-cn"@);
    lemma_plain_selector("zh-hans"@);
    lemma_plain_selector("zh-hans-cn"@);
    lemma_plain_selector("zh_simplified"@);
    lemma_plain_selector("cn"@);
}

proof fn lemma_aliases_zhhant()
    ensures
        spec_parse_lang("zh-tw"@) == Ok::<Lang, Seq<char>>(Lang::ZhHant),
        spec_parse_lang("zh-hant"@) == Ok::<Lang, Seq<char>>(Lang::ZhHant),
        spec_parse_lang("zh-hant-tw"@) == Ok::<Lang, Seq<char>>(Lang::ZhHant),
        spec_parse_lang("zh_traditional"@) == Ok::<Lang, Seq<char>>(Lang::ZhHant),
        spec_parse_lang("tw"@) == Ok::<Lang, Seq<char>>(Lang::ZhHant),
{
    reveal_strlit("ar");
    reveal_strlit("ara");
    reveal_strlit("arabic");
    reveal_strlit("cjk");
    reveal_strlit("el");
    reveal_strlit("ell");
    reveal_strlit("greek");
    reveal_strlit("gr");
    reveal_strlit("fa");
    reveal_strlit("fas");
    reveal_strlit("per");
    reveal_strlit("persian");
    reveal_strlit("farsi");
    reveal_strlit("he");
    reveal_strlit("heb");
    reveal_strlit("hebrew");
    reveal_strlit("hi");
    reveal_strlit("hin");
    reveal_strlit("hindi");
    reveal_strlit("ja");
    reveal_strlit("jpn");
    reveal_strlit("japanese");
    reveal_strlit("ko");
    reveal_strlit("kor");
    reveal_strlit("korean");
    reveal_strlit("ko-kp");
    reveal_strlit("kp");
    reveal_strlit("dprk");
    reveal_strlit("north-korea");
    reveal_strlit("ko-kr");
    reveal_strlit("kr");
    reveal_strlit("rok");
    reveal_strlit("south-korea");
    reveal_strlit("pl");
    reveal_strlit("pol");
    reveal_strlit("polish");
    reveal_strlit("ru");
    reveal_strlit("rus");
    reveal_strlit("russian");
    reveal_strlit("th");
    reveal_strlit("tha");
    reveal_strlit("thai");
    reveal_strlit("tr");
    reveal_strlit("tur");
    reveal_strlit("turkish");
    reveal_strlit("uk");
    reveal_strlit("ukr");
    reveal_strlit("ukrainian");
    reveal_strlit("ur");
    reveal_strlit("urd");
    reveal_strlit("urdu");
    reveal_strlit("vi");
    reveal_strlit("vie");
    reveal_strlit("vietnamese");
    reveal_strlit("zh-cn");
    reveal_strlit("zh-hans");
    reveal_strlit("zh-hans-cn");
    reveal_strlit("zh_simplified");
    reveal_strlit("cn");
    reveal_strlit("zh-tw");
    reveal_strlit("zh-hant");
    reveal_strlit("zh-hant-tw");
    reveal_strlit("zh_traditional");
    reveal_strlit("tw");
    lemma_plain_selector("zh-tw"@);
    lemma_plain_selector("zh-hant"@);
    lemma_plain_selector("zh-hant-tw"@);
    lemma_plain_selector("zh_traditional"@);
    lemma_plain_selector("tw"@);
}

/// Every documented selector name names its language: the short codes, the
/// three-letter codes, the English names and the regional aliases (`zh-cn`,
/// `zh-hans`, `cn`, `ko-kp`, `dprk`, `rok`, ...). Together with
/// `lemma_parse_normalised`, each of them is accepted in any ASCII case and
/// with surrounding whitespace.
pub proof fn lemma_documented_names_parse()
    ensures
        spec_parse_lang("ar"@) == Ok::<Lang, Seq<char>>(Lang::Ar),
        spec_parse_lang("ara"@) == Ok::<Lang, Seq<char>>(Lang::Ar),
        spec_parse_lang("arabic"@) == Ok::<Lang, Seq<char>>(Lang::Ar),
        spec_parse_lang("cjk"@) == Ok::<Lang, Seq<char>>(Lang::Cjk),
        spec_parse_lang("el"@) == Ok::<Lang, Seq<char>>(Lang::El),
        spec_parse_lang("ell"@) == Ok::<Lang, Seq<char>>(Lang::El),
        spec_parse_lang("greek"@) == Ok::<Lang, Seq<char>>(Lang::El),
        spec_parse_lang("gr"@) == Ok::<Lang, Seq<char>>(Lang::El),
        spec_parse_lang("fa"@) == Ok::<Lang, Seq<char>>(Lang::Fa),
        spec_parse_lang("fas"@) == Ok::<Lang, Seq<char>>(Lang::Fa),
        spec_parse_lang("per"@) == Ok::<Lang, Seq<char>>(Lang::Fa),
        spec_parse_lang("persian"@) == Ok::<Lang, Seq<char>>(Lang::Fa),
        spec_parse_lang("farsi"@) == Ok::<Lang, Seq<char>>(Lang::Fa),
        spec_parse_lang("he"@) == Ok::<Lang, Seq<char>>(Lang::He),
        spec_parse_lang("heb"@) == Ok::<Lang, Seq<char>>(Lang::He),
        spec_parse_lang("hebrew"@) == Ok::<Lang, Seq<char>>(Lang::He),
        spec_parse_lang("hi"@) == Ok::<Lang, Seq<char>>(Lang::Hi),
        spec_parse_lang("hin"@) == Ok::<Lang, Seq<char>>(Lang::Hi),
        spec_parse_lang("hindi"@) == Ok::<Lang, Seq<char>>(Lang::Hi),
        spec_parse_lang("ja"@) == Ok::<Lang, Seq<char>>(Lang::Ja),
        spec_parse_lang("jpn"@) == Ok::<Lang, Seq<char>>(Lang::Ja),
        spec_parse_lang("japanese"@) == Ok::<Lang, Seq<char>>(Lang::Ja),
        spec_parse_lang("ko"@) == Ok::<Lang, Seq<char>>(Lang::Ko),
        spec_parse_lang("kor"@) == Ok::<Lang, Seq<char>>(Lang::Ko),
        spec_parse_lang("korean"@) == Ok::<Lang, Seq<char>>(Lang::Ko),
        spec_parse_lang("ko-kp"@) == Ok::<Lang, Seq<char>>(Lang::KoKp),
        spec_parse_lang("kp"@) == Ok::<Lang, Seq<char>>(Lang::KoKp),
        spec_parse_lang("dprk"@) == Ok::<Lang, Seq<char>>(Lang::KoKp),
        spec_parse_lang("north-korea"@) == Ok::<Lang, Seq<char>>(Lang::KoKp),
        spec_parse_lang("ko-kr"@) == Ok::<Lang, Seq<char>>(Lang::KoKr),
        spec_parse_lang("kr"@) == Ok::<Lang, Seq<char>>(Lang::KoKr),
        spec_parse_lang("rok"@) == Ok::<Lang, Seq<char>>(Lang::KoKr),
        spec_parse_lang("south-korea"@) == Ok::<Lang, Seq<char>>(Lang::KoKr),
        spec_parse_lang("pl"@) == Ok::<Lang, Seq<char>>(Lang::Pl),
        spec_parse_lang("pol"@) == Ok::<Lang, Seq<char>>(Lang::Pl),
        spec_parse_lang("polish"@) == Ok::<Lang, Seq<char>>(Lang::Pl),
        spec_parse_lang("ru"@) == Ok::<Lang, Seq<char>>(Lang::Ru),
        spec_parse_lang("rus"@) == Ok::<Lang, Seq<char>>(Lang::Ru),
        spec_parse_lang("russian"@) == Ok::<Lang, Seq<char>>(Lang::Ru),
        spec_parse_lang("th"@) == Ok::<Lang, Seq<char>>(Lang::Th),
        spec_parse_lang("tha"@) == Ok::<Lang, Seq<char>>(Lang::Th),
        spec_parse_lang("thai"@) == Ok::<Lang, Seq<char>>(Lang::Th),
        spec_parse_lang("tr"@) == Ok::<Lang, Seq<char>>(Lang::Tr),
        spec_parse_lang("tur"@) == Ok::<Lang, Seq<char>>(Lang::Tr),
        spec_parse_lang("turkish"@) == Ok::<Lang, Seq<char>>(Lang::Tr),
        spec_parse_lang("uk"@) == Ok::<Lang, Seq<char>>(Lang::Uk),
        spec_parse_lang("ukr"@) == Ok::<Lang, Seq<char>>(Lang::Uk),
        spec_parse_lang("ukrainian"@) == Ok::<Lang, Seq<char>>(Lang::Uk),
        spec_parse_lang("ur"@) == Ok::<Lang, Seq<char>>(Lang::Ur),
        spec_parse_lang("urd"@) == Ok::<Lang, Seq<char>>(Lang::Ur),
        spec_parse_lang("urdu"@) == Ok::<Lang, Seq<char>>(Lang::Ur),
        spec_parse_lang("vi"@) == Ok::<Lang, Seq<char>>(Lang::Vi),
        spec_parse_lang("vie"@) == Ok::<Lang, Seq<char>>(Lang::Vi),
        spec_parse_lang("vietnamese"@) == Ok::<Lang, Seq<char>>(Lang::Vi),
        spec_parse_lang("zh-cn"@) == Ok::<Lang, Seq<char>>(Lang::ZhHans),
        spec_parse_lang("zh-hans"@) == Ok::<Lang, Seq<char>>(Lang::ZhHans),
        spec_parse_lang("zh-hans-cn"@) == Ok::<Lang, Seq<char>>(Lang::ZhHans),
        spec_parse_lang("zh_simplified"@) == Ok::<Lang, Seq<char>>(Lang::ZhHans),
        spec_parse_lang("cn"@) == Ok::<Lang, Seq<char>>(Lang::ZhHans),
        spec_parse_lang("zh-tw"@) == Ok::<Lang, Seq<char>>(Lang::ZhHant),
        spec_parse_lang("zh-hant"@) == Ok::<Lang, Seq<char>>(Lang::ZhHant),
        spec_parse_lang("zh-hant-tw"@) == Ok::<Lang, Seq<char>>(Lang::ZhHant),
        spec_parse_lang("zh_traditional"@) == Ok::<Lang, Seq<char>>(Lang::ZhHant),
        spec_parse_lang("tw"@) == Ok::<Lang, Seq<char>>(Lang::ZhHant),
{
    lemma_aliases_ar();
    lemma_aliases_cjk();
    lemma_aliases_el();
    lemma_aliases_fa();
    lemma_aliases_he();
    lemma_aliases_hi();
    lemma_aliases_ja();
    lemma_aliases_ko();
    lemma_aliases_kokp();
    lemma_aliases_kokr();
    lemma_aliases_pl();
    lemma_aliases_ru();
    lemma_aliases_th();
    lemma_aliases_tr();
    lemma_aliases_uk();
    lemma_aliases_ur();
    lemma_aliases_vi();
    lemma_aliases_zhhans();
    lemma_aliases_zhhant();
}

proof fn lemma_label_names_ar()
    ensures
        spec_parse_lang(spec_lang_label(Lang::Ar)) == Ok::<Lang, Seq<char>>(Lang::Ar),
{
    reveal_strlit("ar");
    lemma_plain_name("ar"@);
}

proof fn lemma_label_names_cjk()
    ensures
        spec_parse_lang(spec_lang_label(Lang::Cjk)) == Ok::<Lang, Seq<char>>(Lang::Cjk),
{
    reveal_strlit("ar");
    reveal_strlit("ara");
    reveal_strlit("arabic");
    reveal_strlit("cjk");
    lemma_plain_name("cjk"@);
}

proof fn lemma_label_names_el()
    ensures
        spec_parse_lang(spec_lang_label(Lang::El)) == Ok::<Lang, Seq<char>>(Lang::El),
{
    reveal_strlit("ar");
    reveal_strlit("ara");
    reveal_strlit("arabic");
    reveal_strlit("cjk");
    reveal_strlit("el");
    lemma_plain_name("el"@);
}

proof fn lemma_label_names_fa()
    ensures
        spec_parse_lang(spec_lang_label(Lang::Fa)) == Ok::<Lang, Seq<char>>(Lang::Fa),
{
    reveal_strlit("ar");
    reveal_strlit("ara");
    reveal_strlit("arabic");
    reveal_strlit("cjk");
    reveal_strlit("el");
    reveal_strlit("ell");
    reveal_strlit("fa");
    reveal_strlit("gr");
    reveal_strlit("greek");
    lemma_plain_name("fa"@);
}

proof fn lemma_label_names_he()
    ensures
        spec_parse_lang(spec_lang_label(Lang::He)) == Ok::<Lang, Seq<char>>(Lang::He),
{
    reveal_strlit("ar");
    reveal_strlit("ara");
    reveal_strlit("arabic");
    reveal_strlit("cjk");
    reveal_strlit("el");
    reveal_strlit("ell");
    reveal_strlit("fa");
    reveal_strlit("farsi");
    reveal_strlit("fas");
    reveal_strlit("gr");
    reveal_strlit("greek");
    reveal_strlit("he");
    reveal_strlit("per");
    reveal_strlit("persian");
    lemma_plain_name("he"@);
}

proof fn lemma_label_names_hi()
    ensures
        spec_parse_lang(spec_lang_label(Lang::Hi)) == Ok::<Lang, Seq<char>>(Lang::Hi),
{
    reveal_strlit("ar");
    reveal_strlit("ara");
    reveal_strlit("arabic");
    reveal_strlit("cjk");
    reveal_strlit("el");
    reveal_strlit("ell");
    reveal_strlit("fa");
    reveal_strlit("farsi");
    reveal_strlit("fas");
    reveal_strlit("gr");
    reveal_strlit("greek");
    reveal_strlit("he");
    reveal_strlit("heb");
    reveal_strlit("hebrew");
    reveal_strlit("hi");
    reveal_strlit("per");
    reveal_strlit("persian");
    lemma_plain_name("hi"@);
}

proof fn lemma_label_names_ja()
    ensures
        spec_parse_lang(spec_lang_label(Lang::Ja)) == Ok::<Lang, Seq<char>>(Lang::Ja),
{
    reveal_strlit("ar");
    reveal_strlit("ara");
    reveal_strlit("arabic");
    reveal_strlit("cjk");
    reveal_strlit("el");
    reveal_strlit("ell");
    reveal_strlit("fa");
    reveal_strlit("farsi");
    reveal_strlit("fas");
    reveal_strlit("gr");
    reveal_strlit("greek");
    reveal_strlit("he");
    reveal_strlit("heb");
    reveal_strlit("hebrew");
    reveal_strlit("hi");
    reveal_strlit("hin");
    reveal_strlit("hindi");
    reveal_strlit("ja");
    reveal_strlit("per");
    reveal_strlit("persian");
    lemma_plain_name("ja"@);
}

proof fn lemma_label_names_ko()
    ensures
        spec_parse_lang(spec_lang_label(Lang::Ko)) == Ok::<Lang, Seq<char>>(Lang::Ko),
{
    reveal_strlit("ar");
    reveal_strlit("ara");
    reveal_strlit("arabic");
    reveal_strlit("cjk");
    reveal_strlit("el");
    reveal_strlit("ell");
    reveal_strlit("fa");
    reveal_strlit("farsi");
    reveal_strlit("fas");
    reveal_strlit("gr");
    reveal_strlit("greek");
    reveal_strlit("he");
    reveal_strlit("heb");
    reveal_strlit("hebrew");
    reveal_strlit("hi");
    reveal_strlit("hin");
    reveal_strlit("hindi");
    reveal_strlit("ja");
    reveal_strlit("japanese");
    reveal_strlit("jpn");
    reveal_strlit("ko");
    reveal_strlit("per");
    reveal_strlit("persian");
    lemma_plain_name("ko"@);
}

proof fn lemma_label_names_kokp()
    ensures
        spec_parse_lang(spec_lang_label(Lang::KoKp)) == Ok::<Lang, Seq<char>>(Lang::KoKp),
{
    reveal_strlit("ar");
    reveal_strlit("ara");
    reveal_strlit("arabic");
    reveal_strlit("cjk");
    reveal_strlit("dprk");
    reveal_strlit("el");
    reveal_strlit("ell");
    reveal_strlit("fa");
    reveal_strlit("farsi");
    reveal_strlit("fas");
    reveal_strlit("gr");
    reveal_strlit("greek");
    reveal_strlit("he");
    reveal_strlit("heb");
    reveal_strlit("hebrew");
    reveal_strlit("hi");
    reveal_strlit("hin");
    reveal_strlit("hindi");
    reveal_strlit("ja");
    reveal_strlit("japanese");
    reveal_strlit("jpn");
    reveal_strlit("ko");
    reveal_strlit("kor");
    reveal_strlit("korean");
    reveal_strlit("per");
    reveal_strlit("persian");
    lemma_plain_name("dprk"@);
}

proof fn lemma_label_names_kokr()
    ensures
        spec_parse_lang(spec_lang_label(Lang::KoKr)) == Ok::<Lang, Seq<char>>(Lang::KoKr),
{
    reveal_strlit("ar");
    reveal_strlit("ara");
    reveal_strlit("arabic");
    reveal_strlit("cjk");
    reveal_strlit("dprk");
    reveal_strlit("el");
    reveal_strlit("ell");
    reveal_strlit("fa");
    reveal_strlit("farsi");
    reveal_strlit("fas");
    reveal_strlit("gr");
    reveal_strlit("greek");
    reveal_strlit("he");
    reveal_strlit("heb");
    reveal_strlit("hebrew");
    reveal_strlit("hi");
    reveal_strlit("hin");
    reveal_strlit("hindi");
    reveal_strlit("ja");
    reveal_strlit("japanese");
    reveal_strlit("jpn");
    reveal_strlit("ko");
    reveal_strlit("ko-kp");
    reveal_strlit("kor");
    reveal_strlit("korean");
    reveal_strlit("kp");
    reveal_strlit("north-korea");
    reveal_strlit("per");
    reveal_strlit("persian");
    reveal_strlit("rok");
    lemma_plain_name("rok"@);
}

proof fn lemma_label_names_pl()
    ensures
        spec_parse_lang(spec_lang_label(Lang::Pl)) == Ok::<Lang, Seq<char>>(Lang::Pl),
{
    reveal_strlit("ar");
    reveal_strlit("ara");
    reveal_strlit("arabic");
    reveal_strlit("cjk");
    reveal_strlit("dprk");
    reveal_strlit("el");
    reveal_strlit("ell");
    reveal_strlit("fa");
    reveal_strlit("farsi");
    reveal_strlit("fas");
    reveal_strlit("gr");
    reveal_strlit("greek");
    reveal_strlit("he");
    reveal_strlit("heb");
    reveal_strlit("hebrew");
    reveal_strlit("hi");
    reveal_strlit("hin");
    reveal_strlit("hindi");
    reveal_strlit("ja");
    reveal_strlit("japanese");
    reveal_strlit("jpn");
    reveal_strlit("ko");
    reveal_strlit("ko-kp");
    reveal_strlit("ko-kr");
    reveal_strlit("kor");
    reveal_strlit("korean");
    reveal_strlit("kp");
    reveal_strlit("kr");
    reveal_strlit("north-korea");
    reveal_strlit("per");
    reveal_strlit("persian");
    reveal_strlit("pl");
    reveal_strlit("rok");
    reveal_strlit("south-korea");
    lemma_plain_name("pl"@);
}

proof fn lemma_label_names_ru()
    ensures
        spec_parse_lang(spec_lang_label(Lang::Ru)) == Ok::<Lang, Seq<char>>(Lang::Ru),
{
    reveal_strlit("ar");
    reveal_strlit("ara");
    reveal_strlit("arabic");
    reveal_strlit("cjk");
    reveal_strlit("dprk");
    reveal_strlit("el");
    reveal_strlit("ell");
    reveal_strlit("fa");
    reveal_strlit("farsi");
    reveal_strlit("fas");
    reveal_strlit("gr");
    reveal_strlit("greek");
    reveal_strlit("he");
    reveal_strlit("heb");
    reveal_strlit("hebrew");
    reveal_strlit("hi");
    reveal_strlit("hin");
    reveal_strlit("hindi");
    reveal_strlit("ja");
    reveal_strlit("japanese");
    reveal_strlit("jpn");
    reveal_strlit("ko");
    reveal_strlit("ko-kp");
    reveal_strlit("ko-kr");
    reveal_strlit("kor");
    reveal_strlit("korean");
    reveal_strlit("kp");
    reveal_strlit("kr");
    reveal_strlit("north-korea");
    reveal_strlit("per");
    reveal_strlit("persian");
    reveal_strlit("pl");
    reveal_strlit("pol");
    reveal_strlit("polish");
    reveal_strlit("rok");
    reveal_strlit("ru");
    reveal_strlit("south-korea");
    lemma_plain_name("ru"@);
}

proof fn lemma_label_names_th()
    ensures
        spec_parse_lang(spec_lang_label(Lang::Th)) == Ok::<Lang, Seq<char>>(Lang::Th),
{
    reveal_strlit("ar");
    reveal_strlit("ara");
    reveal_strlit("arabic");
    reveal_strlit("cjk");
    reveal_strlit("dprk");
    reveal_strlit("el");
    reveal_strlit("ell");
    reveal_strlit("fa");
    reveal_strlit("farsi");
    reveal_strlit("fas");
    reveal_strlit("gr");
    reveal_strlit("greek");
    reveal_strlit("he");
    reveal_strlit("heb");
    reveal_strlit("hebrew");
    reveal_strlit("hi");
    reveal_strlit("hin");
    reveal_strlit("hindi");
    reveal_strlit("ja");
    reveal_strlit("japanese");
    reveal_strlit("jpn");
    reveal_strlit("ko");
    reveal_strlit("ko-kp");
    reveal_strlit("ko-kr");
    reveal_strlit("kor");
    reveal_strlit("korean");
    reveal_strlit("kp");
    reveal_strlit("kr");
    reveal_strlit("north-korea");
    reveal_strlit("per");
    reveal_strlit("persian");
    reveal_strlit("pl");
    reveal_strlit("pol");
    reveal_strlit("polish");
    reveal_strlit("rok");
    reveal_strlit("ru");
    reveal_strlit("rus");
    reveal_strlit("russian");
    reveal_strlit("south-korea");
    reveal_strlit("th");
    lemma_plain_name("th"@);
}

proof fn lemma_label_names_tr()
    ensures
        spec_parse_lang(spec_lang_label(Lang::Tr)) == Ok::<Lang, Seq<char>>(Lang::Tr),
{
    reveal_strlit("ar");
    reveal_strlit("ara");
    reveal_strlit("arabic");
    reveal_strlit("cjk");
    reveal_strlit("dprk");
    reveal_strlit("el");
    reveal_strlit("ell");
    reveal_strlit("fa");
    reveal_strlit("farsi");
    reveal_strlit("fas");
    reveal_strlit("gr");
    reveal_strlit("greek");
    reveal_strlit("he");
    reveal_strlit("heb");
    reveal_strlit("hebrew");
    reveal_strlit("hi");
    reveal_strlit("hin");
    reveal_strlit("hindi");
    reveal_strlit("ja");
    reveal_strlit("japanese");
    reveal_strlit("jpn");
    reveal_strlit("ko");
    reveal_strlit("ko-kp");
    reveal_strlit("ko-kr");
    reveal_strlit("kor");
    reveal_strlit("korean");
    reveal_strlit("kp");
    reveal_strlit("kr");
    reveal_strlit("north-korea");
    reveal_strlit("per");
    reveal_strlit("persian");
    reveal_strlit("pl");
    reveal_strlit("pol");
    reveal_strlit("polish");
    reveal_strlit("rok");
    reveal_strlit("ru");
    reveal_strlit("rus");
    reveal_strlit("russian");
    reveal_strlit("south-korea");
    reveal_strlit("th");
    reveal_strlit("tha");
    reveal_strlit("thai");
    reveal_strlit("tr");
    lemma_plain_name("tr"@);
}

proof fn lemma_label_names_uk()
    ensures
        spec_parse_lang(spec_lang_label(Lang::Uk)) == Ok::<Lang, Seq<char>>(Lang::Uk),
{
    reveal_strlit("ar");
    reveal_strlit("ara");
    reveal_strlit("arabic");
    reveal_strlit("cjk");
    reveal_strlit("dprk");
    reveal_strlit("el");
    reveal_strlit("ell");
    reveal_strlit("fa");
    reveal_strlit("farsi");
    reveal_strlit("fas");
    reveal_strlit("gr");
    reveal_strlit("greek");
    reveal_strlit("he");
    reveal_strlit("heb");
    reveal_strlit("hebrew");
    reveal_strlit("hi");
    reveal_strlit("hin");
    reveal_strlit("hindi");
    reveal_strlit("ja");
    reveal_strlit("japanese");
    reveal_strlit("jpn");
    reveal_strlit("ko");
    reveal_strlit("ko-kp");
    reveal_strlit("ko-kr");
    reveal_strlit("kor");
    reveal_strlit("korean");
    reveal_strlit("kp");
    reveal_strlit("kr");
    reveal_strlit("north-korea");
    reveal_strlit("per");
    reveal_strlit("persian");
    reveal_strlit("pl");
    reveal_strlit("pol");
    reveal_strlit("polish");
    reveal_strlit("rok");
    reveal_strlit("ru");
    reveal_strlit("rus");
    reveal_strlit("russian");
    reveal_strlit("south-korea");
    reveal_strlit("th");
    reveal_strlit("tha");
    reveal_strlit("thai");
    reveal_strlit("tr");
    reveal_strlit("tur");
    reveal_strlit("turkish");
    reveal_strlit("uk");
    lemma_plain_name("uk"@);
}

proof fn lemma_label_names_ur()
    ensures
        spec_parse_lang(spec_lang_label(Lang::Ur)) == Ok::<Lang, Seq<char>>(Lang::Ur),
{
    reveal_strlit("ar");
    reveal_strlit("ara");
    reveal_strlit("arabic");
    reveal_strlit("cjk");
    reveal_strlit("dprk");
    reveal_strlit("el");
    reveal_strlit("ell");
    reveal_strlit("fa");
    reveal_strlit("farsi");
    reveal_strlit("fas");
    reveal_strlit("gr");
    reveal_strlit("greek");
    reveal_strlit("he");
    reveal_strlit("heb");
    reveal_strlit("hebrew");
    reveal_strlit("hi");
    reveal_strlit("hin");
    reveal_strlit("hindi");
    reveal_strlit("ja");
    reveal_strlit("japanese");
    reveal_strlit("jpn");
    reveal_strlit("ko");
    reveal_strlit("ko-kp");
    reveal_strlit("ko-kr");
    reveal_strlit("kor");
    reveal_strlit("korean");
    reveal_strlit("kp");
    reveal_strlit("kr");
    reveal_strlit("north-korea");
    reveal_strlit("per");
    reveal_strlit("persian");
    reveal_strlit("pl");
    reveal_strlit("pol");
    reveal_strlit("polish");
    reveal_strlit("rok");
    reveal_strlit("ru");
    reveal_strlit("rus");
    reveal_strlit("russian");
    reveal_strlit("south-korea");
    reveal_strlit("th");
    reveal_strlit("tha");
    reveal_strlit("thai");
    reveal_strlit("tr");
    reveal_strlit("tur");
    reveal_strlit("turkish");
    reveal_strlit("uk");
    reveal_strlit("ukr");
    reveal_strlit("ukrainian");
    reveal_strlit("ur");
    lemma_plain_name("ur"@);
}

proof fn lemma_label_names_vi()
    ensures
        spec_parse_lang(spec_lang_label(Lang::Vi)) == Ok::<Lang, Seq<char>>(Lang::Vi),
{
    reveal_strlit("ar");
    reveal_strlit("ara");
    reveal_strlit("arabic");
    reveal_strlit("cjk");
    reveal_strlit("dprk");
    reveal_strlit("el");
    reveal_strlit("ell");
    reveal_strlit("fa");
    reveal_strlit("farsi");
    reveal_strlit("fas");
    reveal_strlit("gr");
    reveal_strlit("greek");
    reveal_strlit("he");
    reveal_strlit("heb");
    reveal_strlit("hebrew");
    reveal_strlit("hi");
    reveal_strlit("hin");
    reveal_strlit("hindi");
    reveal_strlit("ja");
    reveal_strlit("japanese");
    reveal_strlit("jpn");
    reveal_strlit("ko");
    reveal_strlit("ko-kp");
    reveal_strlit("ko-kr");
    reveal_strlit("kor");
    reveal_strlit("korean");
    reveal_strlit("kp");
    reveal_strlit("kr");
    reveal_strlit("north-korea");
    reveal_strlit("per");
    reveal_strlit("persian");
    reveal_strlit("pl");
    reveal_strlit("pol");
    reveal_strlit("polish");
    reveal_strlit("rok");
    reveal_strlit("ru");
    reveal_strlit("rus");
    reveal_strlit("russian");
    reveal_strlit("south-korea");
    reveal_strlit("th");
    reveal_strlit("tha");
    reveal_strlit("thai");
    reveal_strlit("tr");
    reveal_strlit("tur");
    reveal_strlit("turkish");
    reveal_strlit("uk");
    reveal_strlit("ukr");
    reveal_strlit("ukrainian");
    reveal_strlit("ur");
    reveal_strlit("urd");
    reveal_strlit("urdu");
    reveal_strlit("vi");
    lemma_plain_name("vi"@);
}

proof fn lemma_label_names_zhhans()
    ensures
        spec_parse_lang(spec_lang_label(Lang::ZhHans)) == Ok::<Lang, Seq<char>>(Lang::ZhHans),
{
    reveal_strlit("ar");
    reveal_strlit("ara");
    reveal_strlit("arabic");
    reveal_strlit("cjk");
    reveal_strlit("cn");
    reveal_strlit("dprk");
    reveal_strlit("el");
    reveal_strlit("ell");
    reveal_strlit("fa");
    reveal_strlit("farsi");
    reveal_strlit("fas");
    reveal_strlit("gr");
    reveal_strlit("greek");
    reveal_strlit("he");
    reveal_strlit("heb");
    reveal_strlit("hebrew");
    reveal_strlit("hi");
    reveal_strlit("hin");
    reveal_strlit("hindi");
    reveal_strlit("ja");
    reveal_strlit("japanese");
    reveal_strlit("jpn");
    reveal_strlit("ko");
    reveal_strlit("ko-kp");
    reveal_strlit("ko-kr");
    reveal_strlit("kor");
    reveal_strlit("korean");
    reveal_strlit("kp");
    reveal_strlit("kr");
    reveal_strlit("north-korea");
    reveal_strlit("per");
    reveal_strlit("persian");
    reveal_strlit("pl");
    reveal_strlit("pol");
    reveal_strlit("polish");
    reveal_strlit("rok");
    reveal_strlit("ru");
    reveal_strlit("rus");
    reveal_strlit("russian");
    reveal_strlit("south-korea");
    reveal_strlit("th");
    reveal_strlit("tha");
    reveal_strlit("thai");
    reveal_strlit("tr");
    reveal_strlit("tur");
    reveal_strlit("turkish");
    reveal_strlit("uk");
    reveal_strlit("ukr");
    reveal_strlit("ukrainian");
    reveal_strlit("ur");
    reveal_strlit("urd");
    reveal_strlit("urdu");
    reveal_strlit("vi");
    reveal_strlit("vie");
    reveal_strlit("vietnamese");
    lemma_plain_name("cn"@);
}

proof fn lemma_label_names_zhhant()
    ensures
        spec_parse_lang(spec_lang_label(Lang::ZhHant)) == Ok::<Lang, Seq<char>>(Lang::ZhHant),
{
    reveal_strlit("ar");
    reveal_strlit("ara");
    reveal_strlit("arabic");
    reveal_strlit("cjk");
    reveal_strlit("cn");
    reveal_strlit("dprk");
    reveal_strlit("el");
    reveal_strlit("ell");
    reveal_strlit("fa");
    reveal_strlit("farsi");
    reveal_strlit("fas");
    reveal_strlit("gr");
    reveal_strlit("greek");
    reveal_strlit("he");
    reveal_strlit("heb");
    reveal_strlit("hebrew");
    reveal_strlit("hi");
    reveal_strlit("hin");
    reveal_strlit("hindi");
    reveal_strlit("ja");
    reveal_strlit("japanese");
    reveal_strlit("jpn");
    reveal_strlit("ko");
    reveal_strlit("ko-kp");
    reveal_strlit("ko-kr");
    reveal_strlit("kor");
    reveal_strlit("korean");
    reveal_strlit("kp");
    reveal_strlit("kr");
    reveal_strlit("north-korea");
    reveal_strlit("per");
    reveal_strlit("persian");
    reveal_strlit("pl");
    reveal_strlit("pol");
    reveal_strlit("polish");
    reveal_strlit("rok");
    reveal_strlit("ru");
    reveal_strlit("rus");
    reveal_strlit("russian");
    reveal_strlit("south-korea");
    reveal_strlit("th");
    reveal_strlit("tha");
    reveal_strlit("thai");
    reveal_strlit("tr");
    reveal_strlit("tur");
    reveal_strlit("turkish");
    reveal_strlit("tw");
    reveal_strlit("uk");
    reveal_strlit("ukr");
    reveal_strlit("ukrainian");
    reveal_strlit("ur");
    reveal_strlit("urd");
    reveal_strlit("urdu");
    reveal_strlit("vi");
    reveal_strlit("vie");
    reveal_strlit("vietnamese");
    reveal_strlit("zh-cn");
    reveal_strlit("zh-hans");
    reveal_strlit("zh-hans-cn");
    reveal_strlit("zh_simplified");
    lemma_plain_name("tw"@);
}

/// Every label is itself a name of its language: parsing the label printed for
/// a language gives that language back.
pub proof fn lemma_label_names_lang(lang: Lang)
    ensures
        spec_parse_lang(spec_lang_label(lang)) == Ok::<Lang, Seq<char>>(lang),
{
    match lang {
        Lang::Ar => lemma_label_names_ar(),
        Lang::Cjk => lemma_label_names_cjk(),
        Lang::El => lemma_label_names_el(),
        Lang::Fa => lemma_label_names_fa(),
        Lang::He => lemma_label_names_he(),
        Lang::Hi => lemma_label_names_hi(),
        Lang::Ja => lemma_label_names_ja(),
        Lang::Ko => lemma_label_names_ko(),
        Lang::KoKp => lemma_label_names_kokp(),
        Lang::KoKr => lemma_label_names_kokr(),
        Lang::Pl => lemma_label_names_pl(),
        Lang::Ru => lemma_label_names_ru(),
        Lang::Th => lemma_label_names_th(),
        Lang::Tr => lemma_label_names_tr(),
        Lang::Uk => lemma_label_names_uk(),
        Lang::Ur => lemma_label_names_ur(),
        Lang::Vi => lemma_label_names_vi(),
        Lang::ZhHans => lemma_label_names_zhhans(),
        Lang::ZhHant => lemma_label_names_zhhant(),
    }
}

/// `a` comes strictly before `b` in lexicographic (dictionary) order.
pub open spec fn lex_lt(a: Seq<char>, b: Seq<char>) -> bool
    decreases a.len(),
{
    if a.len() == 0 {
        b.len() > 0
    } else if b.len() == 0 {
        false
    } else if a[0] < b[0] {
        true
    } else if a[0] == b[0] {
        lex_lt(a.drop_first(), b.drop_first())
    } else {
        false
    }
}

proof fn lemma_lex_lt_transitive(a: Seq<char>, b: Seq<char>, c: Seq<char>)
    requires
        lex_lt(a, b),
        lex_lt(b, c),
    ensures
        lex_lt(a, c),
    decreases a.len(),
{
    if a.len() > 0 && b.len() > 0 && c.len() > 0 && a[0] == b[0] && b[0] == c[0] {
        lemma_lex_lt_transitive(a.drop_first(), b.drop_first(), c.drop_first());
    }
}

proof fn lemma_next_label_after(r: int)
    requires
        0 <= r < LANG_COUNT - 1,
    ensures
        lex_lt(spec_lang_label(spec_lang_of_rank(r)), spec_lang_label(spec_lang_of_rank(r + 1))),
{
    reveal_strlit("ar");
    reveal_strlit("cjk");
    reveal_strlit("el");
    reveal_strlit("fa");
    reveal_strlit("he");
    reveal_strlit("hi");
    reveal_strlit("ja");
    reveal_strlit("ko");
    reveal_strlit("dprk");
    reveal_strlit("rok");
    reveal_strlit("pl");
    reveal_strlit("ru");
    reveal_strlit("th");
    reveal_strlit("tr");
    reveal_strlit("uk");
    reveal_strlit("ur");
    reveal_strlit("vi");
    reveal_strlit("cn");
    reveal_strlit("tw");
    assert(lex_lt("ar"@, "cjk"@)) by {
    }
    assert(lex_lt("cjk"@, "cn"@)) by {
        reveal_with_fuel(lex_lt, 3);
        assert("cjk"@.drop_first() =~= seq!['j', 'k']);
        assert("cn"@.drop_first() =~= seq!['n']);
    }
    assert(lex_lt("cn"@, "dprk"@)) by {
    }
    assert(lex_lt("dprk"@, "el"@)) by {
    }
    assert(lex_lt("el"@, "fa"@)) by {
    }
    assert(lex_lt("fa"@, "he"@)) by {
    }
    assert(lex_lt("he"@, "hi"@)) by {
        reveal_with_fuel(lex_lt, 3);
        assert("he"@.drop_first() =~= seq!['e']);
        assert("hi"@.drop_first() =~= seq!['i']);
    }
    assert(lex_lt("hi"@, "ja"@)) by {
    }
    assert(lex_lt("ja"@, "ko"@)) by {
    }
    assert(lex_lt("ko"@, "pl"@)) by {
    }
    assert(lex_lt("pl"@, "rok"@)) by {
    }
    assert(lex_lt("rok"@, "ru"@)) by {
        reveal_with_fuel(lex_lt, 3);
        assert("rok"@.drop_first() =~= seq!['o', 'k']);
        assert("ru"@.drop_first() =~= seq!['u']);
    }
    assert(lex_lt("ru"@, "th"@)) by {
    }
    assert(lex_lt("th"@, "tr"@)) by {
        reveal_with_fuel(lex_lt, 3);
        assert("th"@.drop_first() =~= seq!['h']);
        assert("tr"@.drop_first() =~= seq!['r']);
    }
    assert(lex_lt("tr"@, "tw"@)) by {
        reveal_with_fuel(lex_lt, 3);
        assert("tr"@.drop_first() =~= seq!['r']);
        assert("tw"@.drop_first() =~= seq!['w']);
    }
    assert(lex_lt("tw"@, "uk"@)) by {
    }
    assert(lex_lt("uk"@, "ur"@)) by {
        reveal_with_fuel(lex_lt, 3);
        assert("uk"@.drop_first() =~= seq!['k']);
        assert("ur"@.drop_first() =~= seq!['r']);
    }
    assert(lex_lt("ur"@, "vi"@)) by {
    }
}

/// Label ranks follow the alphabetical order of the labels.
pub proof fn lemma_label_rank_alphabetical(a: Lang, b: Lang)
    requires
        spec_label_rank(a) < spec_label_rank(b),
    ensures
        lex_lt(spec_lang_label(a), spec_lang_label(b)),
    decreases spec_label_rank(b) - spec_label_rank(a),
{
    lemma_label_rank_inverse(a);
    lemma_label_rank_inverse(b);
    let ra = spec_label_rank(a) as int;
    lemma_next_label_after(ra);
    let next = spec_lang_of_rank(ra + 1);
    if spec_label_rank(b) > ra + 1 {
        assert(spec_label_rank(next) == ra + 1);
        lemma_label_rank_alphabetical(next, b);
        lemma_lex_lt_transitive(spec_lang_label(a), spec_lang_label(next), spec_lang_label(b));
    } else {
        assert(next == b);
    }
}

} // verus!
