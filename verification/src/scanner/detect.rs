//! Per-line detection: which scripts a line shows, which languages match it,
//! and the order in which the matching labels are reported.
use vstd::prelude::*;

use crate::lang::keywords::words_view;
use crate::lang::{self, label_rank, spec_label_rank, KeywordMap, Lang, LANG_COUNT};
use crate::text::{contains_chars, occurs_in};

use super::flags::{line_has, script_char, Flags, ScanPlan, Script};
use super::highlight::{highlight_line, spec_highlight};
use super::{LineHit, LineHitView};

verus! {

/// The flags of a full scan of `line`: a script is flagged when the plan looks
/// for it and some character of the line belongs to it.
pub open spec fn flags_of(line: Seq<char>, plan: ScanPlan) -> Flags {
    Flags {
        has_cjk: plan.need_cjk && line_has(line, Script::Cjk),
        has_cyr: plan.need_cyr && line_has(line, Script::Cyr),
        has_hangul: plan.need_hangul && line_has(line, Script::Hangul),
        has_vietnamese: plan.need_vietnamese && line_has(line, Script::Vietnamese),
        has_thai: plan.need_thai && line_has(line, Script::Thai),
        has_turkish: plan.need_turkish && line_has(line, Script::Turkish),
        has_ukrainian: plan.need_ukrainian && line_has(line, Script::Ukrainian),
        has_arabic: plan.need_arabic && line_has(line, Script::Arabic),
        has_persian: plan.need_persian && line_has(line, Script::Persian),
        has_hebrew: plan.need_hebrew && line_has(line, Script::Hebrew),
        has_devanagari: plan.need_devanagari && line_has(line, Script::Devanagari),
        has_greek: plan.need_greek && line_has(line, Script::Greek),
        has_polish: plan.need_polish && line_has(line, Script::Polish),
        has_urdu: plan.need_urdu && line_has(line, Script::Urdu),
        has_japanese: plan.need_japanese && line_has(line, Script::Japanese),
        has_simplified_marker: plan.need_simplified_marker && line_has(line, Script::SimplifiedMarker),
        has_traditional_marker: plan.need_traditional_marker && line_has(line, Script::TraditionalMarker),
    }
}

proof fn lemma_line_has_step(line: Seq<char>, i: int, script: Script)
    requires
        0 <= i < line.len(),
    ensures
        line_has(line.take(i + 1), script) == (line_has(line.take(i), script) || script_char(
            script,
            line[i],
        )),
{
    let prefix = line.take(i + 1);
    assert(prefix[i] == line[i]);
    if line_has(line.take(i), script) {
        let j = choose|j: int| 0 <= j < i && #[trigger] script_char(script, line.take(i)[j]);
        assert(prefix[j] == line.take(i)[j]);
    }
    if line_has(prefix, script) {
        let j = choose|j: int| 0 <= j < i + 1 && #[trigger] script_char(script, prefix[j]);
        if j < i {
            assert(prefix[j] == line.take(i)[j]);
        }
    }
}

proof fn lemma_line_has_prefix(line: Seq<char>, i: int, script: Script)
    requires
        0 <= i <= line.len(),
        line_has(line.take(i), script),
    ensures
        line_has(line, script),
{
    let j = choose|j: int| 0 <= j < i && #[trigger] script_char(script, line.take(i)[j]);
    assert(line.take(i)[j] == line[j]);
}

/// `flags` after looking at one more character `ch`.
fn flags_after(flags: Flags, plan: &ScanPlan, ch: char) -> (r: Flags)
    ensures
        r.has_cjk == (flags.has_cjk || (plan.need_cjk && script_char(Script::Cjk, ch))),
        r.has_cyr == (flags.has_cyr || (plan.need_cyr && script_char(Script::Cyr, ch))),
        r.has_hangul == (flags.has_hangul || (plan.need_hangul && script_char(Script::Hangul, ch))),
        r.has_vietnamese == (flags.has_vietnamese || (plan.need_vietnamese && script_char(Script::Vietnamese, ch))),
        r.has_thai == (flags.has_thai || (plan.need_thai && script_char(Script::Thai, ch))),
        r.has_turkish == (flags.has_turkish || (plan.need_turkish && script_char(Script::Turkish, ch))),
        r.has_ukrainian == (flags.has_ukrainian || (plan.need_ukrainian && script_char(Script::Ukrainian, ch))),
        r.has_arabic == (flags.has_arabic || (plan.need_arabic && script_char(Script::Arabic, ch))),
        r.has_persian == (flags.has_persian || (plan.need_persian && script_char(Script::Persian, ch))),
        r.has_hebrew == (flags.has_hebrew || (plan.need_hebrew && script_char(Script::Hebrew, ch))),
        r.has_devanagari == (flags.has_devanagari || (plan.need_devanagari && script_char(Script::Devanagari, ch))),
        r.has_greek == (flags.has_greek || (plan.need_greek && script_char(Script::Greek, ch))),
        r.has_polish == (flags.has_polish || (plan.need_polish && script_char(Script::Polish, ch))),
        r.has_urdu == (flags.has_urdu || (plan.need_urdu && script_char(Script::Urdu, ch))),
        r.has_japanese == (flags.has_japanese || (plan.need_japanese && script_char(Script::Japanese, ch))),
        r.has_simplified_marker == (flags.has_simplified_marker || (plan.need_simplified_marker && script_char(Script::SimplifiedMarker, ch))),
        r.has_traditional_marker == (flags.has_traditional_marker || (plan.need_traditional_marker && script_char(Script::TraditionalMarker, ch))),
{
    Flags {
        has_cjk: flags.has_cjk || (plan.need_cjk && lang::is_cjk(ch)),
        has_cyr: flags.has_cyr || (plan.need_cyr && lang::is_cyrillic(ch)),
        has_hangul: flags.has_hangul || (plan.need_hangul && lang::is_hangul(ch)),
        has_vietnamese: flags.has_vietnamese || (plan.need_vietnamese && lang::is_vietnamese(ch)),
        has_thai: flags.has_thai || (plan.need_thai && lang::is_thai(ch)),
        has_turkish: flags.has_turkish || (plan.need_turkish && lang::is_turkish(ch)),
        has_ukrainian: flags.has_ukrainian || (plan.need_ukrainian && lang::is_ukrainian(ch)),
        has_arabic: flags.has_arabic || (plan.need_arabic && lang::is_arabic(ch)),
        has_persian: flags.has_persian || (plan.need_persian && lang::is_persian(ch)),
        has_hebrew: flags.has_hebrew || (plan.need_hebrew && lang::is_hebrew(ch)),
        has_devanagari: flags.has_devanagari || (plan.need_devanagari && lang::is_devanagari(ch)),
        has_greek: flags.has_greek || (plan.need_greek && lang::is_greek(ch)),
        has_polish: flags.has_polish || (plan.need_polish && lang::is_polish(ch)),
        has_urdu: flags.has_urdu || (plan.need_urdu && lang::is_urdu(ch)),
        has_japanese: flags.has_japanese || (plan.need_japanese && lang::is_japanese(ch)),
        has_simplified_marker: flags.has_simplified_marker || (plan.need_simplified_marker && lang::is_simplified_marker(ch)),
        has_traditional_marker: flags.has_traditional_marker || (plan.need_traditional_marker && lang::is_traditional_marker(ch)),
    }
}

proof fn lemma_flags_step(line: Seq<char>, i: int, plan: ScanPlan, before: Flags, after: Flags)
    requires
        0 <= i < line.len(),
        before == flags_of(line.take(i), plan),
        after.has_cjk == (before.has_cjk || (plan.need_cjk && script_char(Script::Cjk, line[i]))),
        after.has_cyr == (before.has_cyr || (plan.need_cyr && script_char(Script::Cyr, line[i]))),
        after.has_hangul == (before.has_hangul || (plan.need_hangul && script_char(Script::Hangul, line[i]))),
        after.has_vietnamese == (before.has_vietnamese || (plan.need_vietnamese && script_char(Script::Vietnamese, line[i]))),
        after.has_thai == (before.has_thai || (plan.need_thai && script_char(Script::Thai, line[i]))),
        after.has_turkish == (before.has_turkish || (plan.need_turkish && script_char(Script::Turkish, line[i]))),
        after.has_ukrainian == (before.has_ukrainian || (plan.need_ukrainian && script_char(Script::Ukrainian, line[i]))),
        after.has_arabic == (before.has_arabic || (plan.need_arabic && script_char(Script::Arabic, line[i]))),
        after.has_persian == (before.has_persian || (plan.need_persian && script_char(Script::Persian, line[i]))),
        after.has_hebrew == (before.has_hebrew || (plan.need_hebrew && script_char(Script::Hebrew, line[i]))),
        after.has_devanagari == (before.has_devanagari || (plan.need_devanagari && script_char(Script::Devanagari, line[i]))),
        after.has_greek == (before.has_greek || (plan.need_greek && script_char(Script::Greek, line[i]))),
        after.has_polish == (before.has_polish || (plan.need_polish && script_char(Script::Polish, line[i]))),
        after.has_urdu == (before.has_urdu || (plan.need_urdu && script_char(Script::Urdu, line[i]))),
        after.has_japanese == (before.has_japanese || (plan.need_japanese && script_char(Script::Japanese, line[i]))),
        after.has_simplified_marker == (before.has_simplified_marker || (plan.need_simplified_marker && script_char(Script::SimplifiedMarker, line[i]))),
        after.has_traditional_marker == (before.has_traditional_marker || (plan.need_traditional_marker && script_char(Script::TraditionalMarker, line[i]))),
    ensures
        after == flags_of(line.take(i + 1), plan),
{
    lemma_line_has_step(line, i, Script::Cjk);
    lemma_line_has_step(line, i, Script::Cyr);
    lemma_line_has_step(line, i, Script::Hangul);
    lemma_line_has_step(line, i, Script::Vietnamese);
    lemma_line_has_step(line, i, Script::Thai);
    lemma_line_has_step(line, i, Script::Turkish);
    lemma_line_has_step(line, i, Script::Ukrainian);
    lemma_line_has_step(line, i, Script::Arabic);
    lemma_line_has_step(line, i, Script::Persian);
    lemma_line_has_step(line, i, Script::Hebrew);
    lemma_line_has_step(line, i, Script::Devanagari);
    lemma_line_has_step(line, i, Script::Greek);
    lemma_line_has_step(line, i, Script::Polish);
    lemma_line_has_step(line, i, Script::Urdu);
    lemma_line_has_step(line, i, Script::Japanese);
    lemma_line_has_step(line, i, Script::SimplifiedMarker);
    lemma_line_has_step(line, i, Script::TraditionalMarker);
}

proof fn lemma_flags_complete(line: Seq<char>, i: int, plan: ScanPlan, flags: Flags)
    requires
        0 <= i <= line.len(),
        flags == flags_of(line.take(i), plan),
        super::flags::plan_complete(plan, flags),
    ensures
        flags == flags_of(line, plan),
{
    assert(flags.has_cjk ==> line_has(line, Script::Cjk)) by {
        if flags.has_cjk {
            lemma_line_has_prefix(line, i, Script::Cjk);
        }
    }
    assert(flags.has_cyr ==> line_has(line, Script::Cyr)) by {
        if flags.has_cyr {
            lemma_line_has_prefix(line, i, Script::Cyr);
        }
    }
    assert(flags.has_hangul ==> line_has(line, Script::Hangul)) by {
        if flags.has_hangul {
            lemma_line_has_prefix(line, i, Script::Hangul);
        }
    }
    assert(flags.has_vietnamese ==> line_has(line, Script::Vietnamese)) by {
        if flags.has_vietnamese {
            lemma_line_has_prefix(line, i, Script::Vietnamese);
        }
    }
    assert(flags.has_thai ==> line_has(line, Script::Thai)) by {
        if flags.has_thai {
            lemma_line_has_prefix(line, i, Script::Thai);
        }
    }
    assert(flags.has_turkish ==> line_has(line, Script::Turkish)) by {
        if flags.has_turkish {
            lemma_line_has_prefix(line, i, Script::Turkish);
        }
    }
    assert(flags.has_ukrainian ==> line_has(line, Script::Ukrainian)) by {
        if flags.has_ukrainian {
            lemma_line_has_prefix(line, i, Script::Ukrainian);
        }
    }
    assert(flags.has_arabic ==> line_has(line, Script::Arabic)) by {
        if flags.has_arabic {
            lemma_line_has_prefix(line, i, Script::Arabic);
        }
    }
    assert(flags.has_persian ==> line_has(line, Script::Persian)) by {
        if flags.has_persian {
            lemma_line_has_prefix(line, i, Script::Persian);
        }
    }
    assert(flags.has_hebrew ==> line_has(line, Script::Hebrew)) by {
        if flags.has_hebrew {
            lemma_line_has_prefix(line, i, Script::Hebrew);
        }
    }
    assert(flags.has_devanagari ==> line_has(line, Script::Devanagari)) by {
        if flags.has_devanagari {
            lemma_line_has_prefix(line, i, Script::Devanagari);
        }
    }
    assert(flags.has_greek ==> line_has(line, Script::Greek)) by {
        if flags.has_greek {
            lemma_line_has_prefix(line, i, Script::Greek);
        }
    }
    assert(flags.has_polish ==> line_has(line, Script::Polish)) by {
        if flags.has_polish {
            lemma_line_has_prefix(line, i, Script::Polish);
        }
    }
    assert(flags.has_urdu ==> line_has(line, Script::Urdu)) by {
        if flags.has_urdu {
            lemma_line_has_prefix(line, i, Script::Urdu);
        }
    }
    assert(flags.has_japanese ==> line_has(line, Script::Japanese)) by {
        if flags.has_japanese {
            lemma_line_has_prefix(line, i, Script::Japanese);
        }
    }
    assert(flags.has_simplified_marker ==> line_has(line, Script::SimplifiedMarker)) by {
        if flags.has_simplified_marker {
            lemma_line_has_prefix(line, i, Script::SimplifiedMarker);
        }
    }
    assert(flags.has_traditional_marker ==> line_has(line, Script::TraditionalMarker)) by {
        if flags.has_traditional_marker {
            lemma_line_has_prefix(line, i, Script::TraditionalMarker);
        }
    }
}

/// The script flags of `line` for the scripts that `plan` looks for. The scan
/// stops as soon as every planned script has been seen; the result is that of
/// a full scan.
pub fn scan_line_flags(line: &[char], plan: &ScanPlan) -> (flags: Flags)
    ensures
        flags == flags_of(line@, *plan),
{
    let mut flags = Flags::default();
    assert(line@.take(0) =~= Seq::<char>::empty());
    assert(line@.take(line@.len() as int) == line@);
    let mut i: usize = 0;
    while i < line.len()
        invariant
            i <= line.len(),
            line@.take(line@.len() as int) == line@,
            flags == flags_of(line@.take(i as int), *plan),
        ensures
            flags == flags_of(line@, *plan),
        decreases line.len() - i,
    {
        let ghost before = flags;
        flags = flags_after(flags, plan, line[i]);
        proof {
            lemma_flags_step(line@, i as int, *plan, before, flags);
        }
        i = i + 1;
        if plan.is_complete(&flags) {
            proof {
                lemma_flags_complete(line@, i as int, *plan, flags);
            }
            break;
        }
    }
    flags
}

/// Some keyword listed for `lang` in `keywords` occurs in `line`.
pub open spec fn keyword_hit(keywords: Map<Lang, Seq<Seq<char>>>, lang: Lang, line: Seq<char>) -> bool {
    &&& keywords.dom().contains(lang)
    &&& exists|k: int| 0 <= k < keywords[lang].len() && #[trigger] occurs_in(line, keywords[lang][k])
}

/// Whether some word of `words` occurs in `line`.
pub fn any_word_in(line: &[char], words: &Vec<Vec<char>>) -> (r: bool)
    ensures
        r == exists|k: int| 0 <= k < words@.len() && #[trigger] occurs_in(line@, words_view(words@)[k]),
{
    let mut k: usize = 0;
    while k < words.len()
        invariant
            k <= words.len(),
            forall|j: int| 0 <= j < k ==> !#[trigger] occurs_in(line@, words_view(words@)[j]),
        decreases words.len() - k,
    {
        if contains_chars(line, words[k].as_slice()) {
            assert(occurs_in(line@, words_view(words@)[k as int]));
            return true;
        }
        k = k + 1;
    }
    false
}

/// Whether some keyword listed for `lang` occurs in `line`.
pub fn has_keyword(keyword_map: &KeywordMap, lang: Lang, line: &[char]) -> (r: bool)
    ensures
        r == keyword_hit(keyword_map@, lang, line@),
{
    match keyword_map.get(lang) {
        Some(words) => any_word_in(line, words),
        None => false,
    }
}

/// The script evidence for `lang` once keywords are left aside: Russian needs
/// Cyrillic without Ukrainian letters, Polish needs Polish letters without
/// Vietnamese ones.
pub open spec fn script_match(lang: Lang, flags: Flags) -> bool {
    match lang {
        Lang::Ar => flags.has_arabic,
        Lang::Cjk => flags.has_cjk,
        Lang::El => flags.has_greek,
        Lang::Fa => flags.has_persian,
        Lang::He => flags.has_hebrew,
        Lang::Hi => flags.has_devanagari,
        Lang::Ja => flags.has_japanese,
        Lang::Ko => flags.has_hangul,
        Lang::KoKp => flags.has_hangul,
        Lang::KoKr => flags.has_hangul,
        Lang::Pl => flags.has_polish && !flags.has_vietnamese,
        Lang::Ru => flags.has_cyr && !flags.has_ukrainian,
        Lang::Th => flags.has_thai,
        Lang::Tr => flags.has_turkish,
        Lang::Uk => flags.has_ukrainian,
        Lang::Ur => flags.has_urdu,
        Lang::Vi => flags.has_vietnamese,
        Lang::ZhHans => flags.has_simplified_marker,
        Lang::ZhHant => flags.has_traditional_marker,
    }
}

/// `lang` matches `line`: one of its keywords occurs in the line, or else its
/// script evidence is flagged. The regional Korean labels rely on their
/// keywords alone once they have a keyword list.
pub open spec fn spec_lang_matches(
    lang: Lang,
    line: Seq<char>,
    flags: Flags,
    keywords: Map<Lang, Seq<Seq<char>>>,
) -> bool {
    if keyword_hit(keywords, lang, line) {
        true
    } else if keywords.dom().contains(lang) && (lang == Lang::KoKp || lang == Lang::KoKr) {
        false
    } else {
        script_match(lang, flags)
    }
}

/// Whether `lang` matches `line`.
pub fn lang_matches(lang: Lang, line: &[char], flags: &Flags, keyword_map: &KeywordMap) -> (r: bool)
    ensures
        r == spec_lang_matches(lang, line@, *flags, keyword_map@),
{
    if let Some(words) = keyword_map.get(lang) {
        if any_word_in(line, words) {
            return true;
        }
        if lang == Lang::KoKp || lang == Lang::KoKr {
            return false;
        }
    }
    match lang {
        Lang::Ar => flags.has_arabic,
        Lang::Cjk => flags.has_cjk,
        Lang::El => flags.has_greek,
        Lang::Fa => flags.has_persian,
        Lang::He => flags.has_hebrew,
        Lang::Hi => flags.has_devanagari,
        Lang::Ja => flags.has_japanese,
        Lang::Ko => flags.has_hangul,
        Lang::KoKp => flags.has_hangul,
        Lang::KoKr => flags.has_hangul,
        Lang::Pl => flags.has_polish && !flags.has_vietnamese,
        Lang::Ru => flags.has_cyr && !flags.has_ukrainian,
        Lang::Th => flags.has_thai,
        Lang::Tr => flags.has_turkish,
        Lang::Uk => flags.has_ukrainian,
        Lang::Ur => flags.has_urdu,
        Lang::Vi => flags.has_vietnamese,
        Lang::ZhHans => flags.has_simplified_marker,
        Lang::ZhHant => flags.has_traditional_marker,
    }
}

/// `ch` is highlighted for `lang`: it belongs to the script or marker set of
/// the language; the regional Korean labels highlight only their keywords.
pub open spec fn spec_is_highlight_char(lang: Lang, ch: char) -> bool {
    match lang {
        Lang::Ar => lang::arabic::spec_is_arabic(ch),
        Lang::Cjk => lang::cjk::spec_is_cjk(ch),
        Lang::El => lang::greek::spec_is_greek(ch),
        Lang::Fa => lang::persian::spec_is_persian(ch),
        Lang::He => lang::hebrew::spec_is_hebrew(ch),
        Lang::Hi => lang::hindi::spec_is_devanagari(ch),
        Lang::Ja => lang::japanese::spec_is_japanese(ch),
        Lang::Ko => lang::korean::spec_is_hangul(ch),
        Lang::KoKp => false,
        Lang::KoKr => false,
        Lang::Pl => lang::polish::spec_is_polish(ch),
        Lang::Ru => lang::cyrillic::spec_is_cyrillic(ch),
        Lang::Th => lang::thai::spec_is_thai(ch),
        Lang::Tr => lang::turkish::spec_is_turkish(ch),
        Lang::Uk => lang::ukrainian::spec_is_ukrainian(ch),
        Lang::Ur => lang::urdu::spec_is_urdu(ch),
        Lang::Vi => lang::vietnamese::spec_is_vietnamese(ch),
        Lang::ZhHans => lang::chinese::spec_is_simplified_marker(ch),
        Lang::ZhHant => lang::chinese::spec_is_traditional_marker(ch),
    }
}

/// Whether `ch` is highlighted for `lang`.
pub fn is_highlight_char(lang: Lang, ch: char) -> (r: bool)
    ensures
        r == spec_is_highlight_char(lang, ch),
{
    match lang {
        Lang::Ar => lang::is_arabic(ch),
        Lang::Cjk => lang::is_cjk(ch),
        Lang::El => lang::is_greek(ch),
        Lang::Fa => lang::is_persian(ch),
        Lang::He => lang::is_hebrew(ch),
        Lang::Hi => lang::is_devanagari(ch),
        Lang::Ja => lang::is_japanese(ch),
        Lang::Ko => lang::is_hangul(ch),
        Lang::KoKp => false,
        Lang::KoKr => false,
        Lang::Pl => lang::is_polish(ch),
        Lang::Ru => lang::is_cyrillic(ch),
        Lang::Th => lang::is_thai(ch),
        Lang::Tr => lang::is_turkish(ch),
        Lang::Uk => lang::is_ukrainian(ch),
        Lang::Ur => lang::is_urdu(ch),
        Lang::Vi => lang::is_vietnamese(ch),
        Lang::ZhHans => lang::is_simplified_marker(ch),
        Lang::ZhHant => lang::is_traditional_marker(ch),
    }
}

/// The script evidence that keeps a line in the scan for `lang`.
pub open spec fn script_seen(lang: Lang, flags: Flags) -> bool {
    match lang {
        Lang::Ar => flags.has_arabic,
        Lang::Cjk => flags.has_cjk,
        Lang::El => flags.has_greek,
        Lang::Fa => flags.has_persian,
        Lang::He => flags.has_hebrew,
        Lang::Hi => flags.has_devanagari,
        Lang::Ja => flags.has_japanese,
        Lang::Ko => flags.has_hangul,
        Lang::KoKp => flags.has_hangul,
        Lang::KoKr => flags.has_hangul,
        Lang::Pl => flags.has_polish,
        Lang::Ru => flags.has_cyr,
        Lang::Th => flags.has_thai,
        Lang::Tr => flags.has_turkish,
        Lang::Uk => flags.has_ukrainian,
        Lang::Ur => flags.has_urdu,
        Lang::Vi => flags.has_vietnamese,
        Lang::ZhHans => flags.has_cjk && flags.has_simplified_marker,
        Lang::ZhHant => flags.has_cjk && flags.has_traditional_marker,
    }
}

/// A line can be skipped when no language of `langs` has script evidence on it
/// and no keyword of any of them occurs in it.
pub open spec fn spec_should_skip_line(
    flags: Flags,
    langs: Seq<Lang>,
    keywords: Map<Lang, Seq<Seq<char>>>,
    line: Seq<char>,
) -> bool {
    &&& !exists|i: int| 0 <= i < langs.len() && #[trigger] script_seen(langs[i], flags)
    &&& !exists|i: int| 0 <= i < langs.len() && #[trigger] keyword_hit(keywords, langs[i], line)
}

fn seen(lang: Lang, flags: &Flags) -> (r: bool)
    ensures
        r == script_seen(lang, *flags),
{
    match lang {
        Lang::Ar => flags.has_arabic,
        Lang::Cjk => flags.has_cjk,
        Lang::El => flags.has_greek,
        Lang::Fa => flags.has_persian,
        Lang::He => flags.has_hebrew,
        Lang::Hi => flags.has_devanagari,
        Lang::Ja => flags.has_japanese,
        Lang::Ko => flags.has_hangul,
        Lang::KoKp => flags.has_hangul,
        Lang::KoKr => flags.has_hangul,
        Lang::Pl => flags.has_polish,
        Lang::Ru => flags.has_cyr,
        Lang::Th => flags.has_thai,
        Lang::Tr => flags.has_turkish,
        Lang::Uk => flags.has_ukrainian,
        Lang::Ur => flags.has_urdu,
        Lang::Vi => flags.has_vietnamese,
        Lang::ZhHans => flags.has_cjk && flags.has_simplified_marker,
        Lang::ZhHant => flags.has_cjk && flags.has_traditional_marker,
    }
}

/// Whether the line can be skipped without looking at it further.
pub fn should_skip_line(flags: &Flags, langs: &[Lang], keyword_map: &KeywordMap, line: &[char]) -> (r: bool)
    ensures
        r == spec_should_skip_line(*flags, langs@, keyword_map@, line@),
{
    let mut i: usize = 0;
    while i < langs.len()
        invariant
            i <= langs.len(),
            forall|j: int| 0 <= j < i ==> !#[trigger] script_seen(langs@[j], *flags),
        decreases langs.len() - i,
    {
        if seen(langs[i], flags) {
            return false;
        }
        i = i + 1;
    }
    let mut i: usize = 0;
    while i < langs.len()
        invariant
            i <= langs.len(),
            forall|j: int| 0 <= j < langs@.len() ==> !#[trigger] script_seen(langs@[j], *flags),
            forall|j: int| 0 <= j < i ==> !#[trigger] keyword_hit(keyword_map@, langs@[j], line@),
        decreases langs.len() - i,
    {
        if has_keyword(keyword_map, langs[i], line) {
            return false;
        }
        i = i + 1;
    }
    true
}

/// The predicate "matches the line" as a closure.
pub open spec fn matcher(line: Seq<char>, flags: Flags, keywords: Map<Lang, Seq<Seq<char>>>) -> spec_fn(Lang) -> bool {
    |l: Lang| spec_lang_matches(l, line, flags, keywords)
}

/// The predicate "has label rank `r`" as a closure.
pub open spec fn rank_is(r: int) -> spec_fn(Lang) -> bool {
    |l: Lang| spec_label_rank(l) == r
}

/// The languages of `s` whose label rank is below `r`, grouped by rank in
/// increasing order, each group in the order of `s`.
pub open spec fn labelled_upto(s: Seq<Lang>, r: nat) -> Seq<Lang>
    decreases r,
{
    if r == 0 {
        Seq::empty()
    } else {
        labelled_upto(s, (r - 1) as nat) + s.filter(rank_is(r - 1))
    }
}

/// `s` sorted by label alphabetically; languages with equal labels keep their order.
pub open spec fn in_label_order(s: Seq<Lang>) -> Seq<Lang> {
    labelled_upto(s, LANG_COUNT as nat)
}

/// The languages of `langs` that match `line`, sorted by label.
pub open spec fn spec_run_detect(
    line: Seq<char>,
    langs: Seq<Lang>,
    flags: Flags,
    keywords: Map<Lang, Seq<Seq<char>>>,
) -> Seq<Lang> {
    in_label_order(langs.filter(matcher(line, flags, keywords)))
}

proof fn lemma_filter_step<A>(s: Seq<A>, i: int, p: spec_fn(A) -> bool)
    requires
        0 <= i < s.len(),
    ensures
        s.take(i + 1).filter(p) == if p(s[i]) {
            s.take(i).filter(p).push(s[i])
        } else {
            s.take(i).filter(p)
        },
{
    reveal(Seq::filter);
    assert(s.take(i + 1).drop_last() == s.take(i));
    assert(s.take(i + 1).last() == s[i]);
}

/// The languages of `langs` that match `line`, sorted by label alphabetically.
pub fn run_detect(line: &[char], langs: &[Lang], flags: &Flags, keyword_map: &KeywordMap) -> (hits: Vec<Lang>)
    ensures
        hits@ == spec_run_detect(line@, langs@, *flags, keyword_map@),
{
    let ghost p = matcher(line@, *flags, keyword_map@);
    let mut matched: Vec<Lang> = Vec::new();
    let mut i: usize = 0;
    assert(langs@.take(0).filter(p) =~= Seq::<Lang>::empty()) by {
        reveal(Seq::filter);
    }
    while i < langs.len()
        invariant
            i <= langs.len(),
            p == matcher(line@, *flags, keyword_map@),
            matched@ == langs@.take(i as int).filter(p),
        decreases langs.len() - i,
    {
        proof {
            lemma_filter_step(langs@, i as int, p);
        }
        if lang_matches(langs[i], line, flags, keyword_map) {
            matched.push(langs[i]);
        }
        i = i + 1;
    }
    assert(langs@.take(langs@.len() as int) == langs@);
    let ghost m = matched@;
    let mut hits: Vec<Lang> = Vec::new();
    let mut r: usize = 0;
    while r < LANG_COUNT
        invariant
            r <= LANG_COUNT,
            matched@ == m,
            hits@ == labelled_upto(m, r as nat),
        decreases LANG_COUNT - r,
    {
        let ghost q = rank_is(r as int);
        let ghost before = hits@;
        assert(m.take(0).filter(q) =~= Seq::<Lang>::empty()) by {
            reveal(Seq::filter);
        }
        let mut j: usize = 0;
        while j < matched.len()
            invariant
                j <= matched.len(),
                r < LANG_COUNT,
                matched@ == m,
                q == rank_is(r as int),
                hits@ == before + m.take(j as int).filter(q),
            decreases matched.len() - j,
        {
            proof {
                lemma_filter_step(m, j as int, q);
            }
            if label_rank(matched[j]) == r {
                hits.push(matched[j]);
            }
            j = j + 1;
        }
        assert(m.take(m.len() as int) == m);
        r = r + 1;
    }
    hits
}

/// The hit for a matched line: its number, its labels, the line itself and the
/// line with the matched script characters and keywords highlighted.
pub fn create_line_hit(line_no: usize, line: &[char], hits: Vec<Lang>, keyword_map: &KeywordMap) -> (hit: LineHit)
    ensures
        hit@ == (LineHitView {
            line_no: line_no as nat,
            labels: hits@,
            original: line@,
            highlighted: spec_highlight(line@, hits@, keyword_map@),
        }),
{
    let original = crate::text::string_from_chars(line);
    let highlighted = highlight_line(line, hits.as_slice(), keyword_map);
    LineHit { line_no, labels: hits, original, highlighted }
}

/// How often `lang` occurs in `labels`.
pub open spec fn occurrences(labels: Seq<Lang>, lang: Lang) -> nat
    decreases labels.len(),
{
    if labels.len() == 0 {
        0
    } else {
        occurrences(labels.drop_last(), lang) + if labels.last() == lang {
            1nat
        } else {
            0nat
        }
    }
}

proof fn lemma_occurrences_concat(a: Seq<Lang>, b: Seq<Lang>, x: Lang)
    ensures
        occurrences(a + b, x) == occurrences(a, x) + occurrences(b, x),
    decreases b.len(),
{
    if b.len() > 0 {
        lemma_occurrences_concat(a, b.drop_last(), x);
        assert((a + b).drop_last() == a + b.drop_last());
        assert((a + b).last() == b.last());
    } else {
        assert(a + b == a);
    }
}

proof fn lemma_occurrences_rank_filter(s: Seq<Lang>, r: int, x: Lang)
    ensures
        occurrences(s.filter(rank_is(r)), x) == if spec_label_rank(x) == r {
            occurrences(s, x)
        } else {
            0
        },
    decreases s.len(),
{
    reveal(Seq::filter);
    if s.len() > 0 {
        lemma_occurrences_rank_filter(s.drop_last(), r, x);
        let f = s.drop_last().filter(rank_is(r));
        if rank_is(r)(s.last()) {
            assert(s.filter(rank_is(r)) == f.push(s.last()));
            assert(f.push(s.last()).drop_last() == f);
        }
    }
}

proof fn lemma_labelled_upto(s: Seq<Lang>, r: nat, x: Lang)
    ensures
        occurrences(labelled_upto(s, r), x) == if spec_label_rank(x) < r {
            occurrences(s, x)
        } else {
            0
        },
        forall|i: int| 0 <= i < labelled_upto(s, r).len() ==> spec_label_rank(#[trigger] labelled_upto(s, r)[i]) < r,
        forall|i: int, j: int| 0 <= i < j < labelled_upto(s, r).len() ==> spec_label_rank(#[trigger] labelled_upto(s, r)[i]) <= spec_label_rank(#[trigger] labelled_upto(s, r)[j]),
    decreases r,
{
    broadcast use Seq::lemma_filter_pred;
    if r > 0 {
        let prev = labelled_upto(s, (r - 1) as nat);
        let f = s.filter(rank_is(r - 1));
        lemma_labelled_upto(s, (r - 1) as nat, x);
        lemma_occurrences_concat(prev, f, x);
        lemma_occurrences_rank_filter(s, r - 1, x);
        let all = labelled_upto(s, r);
        assert(all == prev + f);
        assert forall|i: int| 0 <= i < all.len() implies spec_label_rank(#[trigger] all[i]) < r by {
            if i >= prev.len() {
                assert(all[i] == f[i - prev.len()]);
                assert(rank_is(r - 1)(f[i - prev.len()]));
            }
        }
        assert forall|i: int, j: int| 0 <= i < j < all.len() implies spec_label_rank(#[trigger] all[i]) <= spec_label_rank(#[trigger] all[j]) by {
            if j >= prev.len() {
                assert(all[j] == f[j - prev.len()]);
                assert(rank_is(r - 1)(f[j - prev.len()]));
                if i >= prev.len() {
                    assert(all[i] == f[i - prev.len()]);
                    assert(rank_is(r - 1)(f[i - prev.len()]));
                }
            }
        }
    }
}

/// The labels that `run_detect` reports are sorted alphabetically, and they are
/// exactly the languages of `langs` that match the line, each as often as it is
/// listed in `langs`.
pub proof fn lemma_detected_labels_sorted(
    line: Seq<char>,
    langs: Seq<Lang>,
    flags: Flags,
    keywords: Map<Lang, Seq<Seq<char>>>,
)
    ensures
        forall|i: int, j: int| 0 <= i < j < spec_run_detect(line, langs, flags, keywords).len() ==> {
            let a = #[trigger] spec_run_detect(line, langs, flags, keywords)[i];
            let b = #[trigger] spec_run_detect(line, langs, flags, keywords)[j];
            a == b || lang::lex_lt(lang::spec_lang_label(a), lang::spec_lang_label(b))
        },
        forall|x: Lang| #[trigger] occurrences(spec_run_detect(line, langs, flags, keywords), x) == occurrences(langs.filter(matcher(line, flags, keywords)), x),
{
    let m = langs.filter(matcher(line, flags, keywords));
    let out = spec_run_detect(line, langs, flags, keywords);
    assert forall|x: Lang| #[trigger] occurrences(out, x) == occurrences(m, x) by {
        lemma_labelled_upto(m, LANG_COUNT as nat, x);
        lang::lemma_label_rank_inverse(x);
    }
    lemma_labelled_upto(m, LANG_COUNT as nat, Lang::Ar);
    assert forall|i: int, j: int| 0 <= i < j < out.len() implies {
        let a = #[trigger] out[i];
        let b = #[trigger] out[j];
        a == b || lang::lex_lt(lang::spec_lang_label(a), lang::spec_lang_label(b))
    } by {
        let a = out[i];
        let b = out[j];
        if spec_label_rank(a) < spec_label_rank(b) {
            lang::lemma_label_rank_alphabetical(a, b);
        } else {
            lang::lemma_label_rank_inverse(a);
            lang::lemma_label_rank_inverse(b);
        }
    }
}

/// Narrow scripts take precedence over the broad ones they resemble: when `uk`
/// is scanned for and the line holds a Ukrainian letter, the line is labelled
/// `uk`, and `ru` only through a Russian keyword; likewise a Vietnamese letter
/// gives `vi` and keeps `pl` to its keywords when `vi` is scanned for.
pub proof fn lemma_narrow_scripts_win(line: Seq<char>, langs: Seq<Lang>, keywords: Map<Lang, Seq<Seq<char>>>)
    ensures
        langs.contains(Lang::Uk) && line_has(line, Script::Ukrainian) ==> {
            &&& spec_lang_matches(Lang::Uk, line, flags_of(line, super::flags::plan_of(langs)), keywords)
            &&& spec_lang_matches(Lang::Ru, line, flags_of(line, super::flags::plan_of(langs)), keywords)
                ==> keyword_hit(keywords, Lang::Ru, line)
        },
        langs.contains(Lang::Vi) && line_has(line, Script::Vietnamese) ==> {
            &&& spec_lang_matches(Lang::Vi, line, flags_of(line, super::flags::plan_of(langs)), keywords)
            &&& spec_lang_matches(Lang::Pl, line, flags_of(line, super::flags::plan_of(langs)), keywords)
                ==> keyword_hit(keywords, Lang::Pl, line)
        },
{
    if langs.contains(Lang::Uk) {
        let i = choose|i: int| 0 <= i < langs.len() && langs[i] == Lang::Uk;
        assert(super::flags::lang_needs(langs[i], Script::Ukrainian));
    }
    if langs.contains(Lang::Vi) {
        let i = choose|i: int| 0 <= i < langs.len() && langs[i] == Lang::Vi;
        assert(super::flags::lang_needs(langs[i], Script::Vietnamese));
    }
}

/// The regional Korean labels sit under the general one: a line on which a
/// built-in North or South Korean keyword occurs shows Hangul, so it is
/// labelled `ko` whenever `ko` is scanned for.
pub proof fn lemma_regional_keyword_is_korean(
    line: Seq<char>,
    langs: Seq<Lang>,
    keywords: Map<Lang, Seq<Seq<char>>>,
    word: Seq<char>,
)
    requires
        lang::korean::kp_keywords().contains(word) || lang::korean::kr_keywords().contains(word),
        occurs_in(line, word),
        langs.contains(Lang::Ko),
    ensures
        line_has(line, Script::Hangul),
        spec_lang_matches(Lang::Ko, line, flags_of(line, super::flags::plan_of(langs)), keywords),
{
    lang::korean::lemma_kp_keywords_hangul();
    lang::korean::lemma_kr_keywords_hangul();
    assert(word.len() > 0 && lang::korean::spec_is_hangul(word[0])) by {
        if lang::korean::kp_keywords().contains(word) {
            let k = choose|k: int| 0 <= k < lang::korean::kp_keywords().len() && lang::korean::kp_keywords()[k] == word;
            assert(lang::korean::kp_keywords()[k].len() > 0);
        } else {
            let k = choose|k: int| 0 <= k < lang::korean::kr_keywords().len() && lang::korean::kr_keywords()[k] == word;
            assert(lang::korean::kr_keywords()[k].len() > 0);
        }
    }
    let i = choose|i: int| #[trigger] crate::text::occurs_at(line, word, i);
    assert(line.subrange(i, i + word.len())[0] == line[i]);
    assert(script_char(Script::Hangul, line[i]));
    let j = choose|j: int| 0 <= j < langs.len() && langs[j] == Lang::Ko;
    assert(super::flags::lang_needs(langs[j], Script::Hangul));
}

proof fn lemma_labelled_upto_empty(r: nat)
    ensures
        labelled_upto(Seq::<Lang>::empty(), r) == Seq::<Lang>::empty(),
    decreases r,
{
    reveal(Seq::filter);
    if r > 0 {
        lemma_labelled_upto_empty((r - 1) as nat);
        assert(labelled_upto(Seq::<Lang>::empty(), r) =~= Seq::<Lang>::empty());
    }
}

/// Skipping a line loses nothing: when `should_skip_line` holds for the flags
/// of a full scan of the line, planned for `langs`, no language of `langs`
/// matches the line.
pub proof fn lemma_skipped_line_has_no_labels(
    line: Seq<char>,
    langs: Seq<Lang>,
    keywords: Map<Lang, Seq<Seq<char>>>,
)
    requires
        spec_should_skip_line(flags_of(line, super::flags::plan_of(langs)), langs, keywords, line),
    ensures
        spec_run_detect(line, langs, flags_of(line, super::flags::plan_of(langs)), keywords).len() == 0,
{
    let flags = flags_of(line, super::flags::plan_of(langs));
    let p = matcher(line, flags, keywords);
    assert forall|i: int| 0 <= i < langs.len() implies !p(#[trigger] langs[i]) by {
        let lang = langs[i];
        assert(!script_seen(lang, flags));
        assert(!keyword_hit(keywords, lang, line));
        if lang == Lang::ZhHans || lang == Lang::ZhHant {
            assert(super::flags::lang_needs(langs[i], Script::Cjk));
            if line_has(line, Script::SimplifiedMarker) {
                let j = choose|j: int| 0 <= j < line.len() && #[trigger] script_char(Script::SimplifiedMarker, line[j]);
                lang::chinese::lemma_markers_are_cjk(line[j]);
                assert(script_char(Script::Cjk, line[j]));
            }
            if line_has(line, Script::TraditionalMarker) {
                let j = choose|j: int| 0 <= j < line.len() && #[trigger] script_char(Script::TraditionalMarker, line[j]);
                lang::chinese::lemma_markers_are_cjk(line[j]);
                assert(script_char(Script::Cjk, line[j]));
            }
        }
    }
    langs.lemma_all_neg_filter_empty(p);
    assert(langs.filter(p) =~= Seq::<Lang>::empty());
    lemma_labelled_upto_empty(LANG_COUNT as nat);
}

} // verus!
