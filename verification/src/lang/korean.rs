use vstd::prelude::*;

use super::keywords::{str_words, strings_of, strings_view};
use super::markers::{KO_KP_KEYWORDS, KO_KR_KEYWORDS};
use super::Lang;

verus! {

/// A Hangul letter: Jamo, compatibility Jamo, syllables, Jamo Extended-A and -B.
pub open spec fn spec_is_hangul(ch: char) -> bool {
    ||| ('\u{1100}' <= ch && ch <= '\u{11FF}')
    ||| ('\u{3130}' <= ch && ch <= '\u{318F}')
    ||| ('\u{AC00}' <= ch && ch <= '\u{D7A3}')
    ||| ('\u{A960}' <= ch && ch <= '\u{A97F}')
    ||| ('\u{D7B0}' <= ch && ch <= '\u{D7FF}')
}

/// A Hangul letter: Jamo, compatibility Jamo, syllables, Jamo Extended-A and -B.
pub fn is_hangul(ch: char) -> (r: bool)
    ensures
        r == spec_is_hangul(ch),
{
    ('\u{1100}' <= ch && ch <= '\u{11FF}') || ('\u{3130}' <= ch && ch <= '\u{318F}') || (
    '\u{AC00}' <= ch && ch <= '\u{D7A3}') || ('\u{A960}' <= ch && ch <= '\u{A97F}') || (
    '\u{D7B0}' <= ch && ch <= '\u{D7FF}')
}

/// The built-in North Korean keyword hints.
pub open spec fn kp_keywords() -> Seq<Seq<char>> {
    str_words(KO_KP_KEYWORDS@)
}

/// The built-in South Korean keyword hints.
pub open spec fn kr_keywords() -> Seq<Seq<char>> {
    str_words(KO_KR_KEYWORDS@)
}

/// The built-in regional keyword hints for Korean, per label in label-key order:
/// North Korea (`dprk`), then South Korea (`rok`).
pub fn built_in_keywords() -> (r: Vec<(Lang, Vec<String>)>)
    ensures
        r@.len() == 2,
        r@[0].0 == Lang::KoKp,
        strings_view(r@[0].1@) == kp_keywords(),
        r@[1].0 == Lang::KoKr,
        strings_view(r@[1].1@) == kr_keywords(),
{
    let mut r: Vec<(Lang, Vec<String>)> = Vec::new();
    r.push((Lang::KoKp, strings_of(&KO_KP_KEYWORDS)));
    r.push((Lang::KoKr, strings_of(&KO_KR_KEYWORDS)));
    r
}

/// The built-in North Korean keywords are written in Hangul.
pub proof fn lemma_kp_keywords_hangul()
    ensures
        forall|k: int| 0 <= k < kp_keywords().len() ==> #[trigger] kp_keywords()[k].len() > 0,
        forall|k: int, j: int| 0 <= k < kp_keywords().len() && 0 <= j < kp_keywords()[k].len() ==> spec_is_hangul(#[trigger] kp_keywords()[k][j]),
{
    reveal_strlit("조선");
    reveal_strlit("로동");
    reveal_strlit("동무");
    reveal_strlit("평양");
    reveal_strlit("주체");
    reveal_strlit("김일성");
    reveal_strlit("김정일");
    reveal_strlit("김정은");
    reveal_strlit("령도");
    reveal_strlit("선군");
    reveal_strlit("인민공화국");
    reveal_strlit("로동당");
    assert forall|k: int| 0 <= k < kp_keywords().len() implies #[trigger] kp_keywords()[k].len() > 0 by {
        assert(kp_keywords()[k] == KO_KP_KEYWORDS@[k]@);
    }
    assert forall|k: int, j: int| 0 <= k < kp_keywords().len() && 0 <= j < kp_keywords()[k].len() implies spec_is_hangul(#[trigger] kp_keywords()[k][j]) by {
        assert(kp_keywords()[k] == KO_KP_KEYWORDS@[k]@);
    }
}

/// The built-in South Korean keywords are written in Hangul.
pub proof fn lemma_kr_keywords_hangul()
    ensures
        forall|k: int| 0 <= k < kr_keywords().len() ==> #[trigger] kr_keywords()[k].len() > 0,
        forall|k: int, j: int| 0 <= k < kr_keywords().len() && 0 <= j < kr_keywords()[k].len() ==> spec_is_hangul(#[trigger] kr_keywords()[k][j]),
{
    reveal_strlit("대한민국");
    reveal_strlit("서울");
    reveal_strlit("대통령실");
    reveal_strlit("청와대");
    reveal_strlit("국회의원");
    reveal_strlit("국정원");
    reveal_strlit("합동참모본부");
    reveal_strlit("한국");
    assert forall|k: int| 0 <= k < kr_keywords().len() implies #[trigger] kr_keywords()[k].len() > 0 by {
        assert(kr_keywords()[k] == KO_KR_KEYWORDS@[k]@);
    }
    assert forall|k: int, j: int| 0 <= k < kr_keywords().len() && 0 <= j < kr_keywords()[k].len() implies spec_is_hangul(#[trigger] kr_keywords()[k][j]) by {
        assert(kr_keywords()[k] == KO_KR_KEYWORDS@[k]@);
    }
}

} // verus!
