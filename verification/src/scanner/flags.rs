//! The scan plan (which scripts a set of languages needs) and the per-line
//! script flags.
use vstd::prelude::*;

use crate::lang::{self, Lang};

verus! {

/// Whether a scan reports the lines that carry labels or the lines that carry none.
#[derive(Clone, Copy, Debug, PartialEq, Eq, Structural)]
pub enum MatchMode {
    Matched,
    Unmatched,
}

/// A script or marker class that the per-line scan looks for.
pub enum Script {
    Cjk,
    Cyr,
    Hangul,
    Vietnamese,
    Thai,
    Turkish,
    Ukrainian,
    Arabic,
    Persian,
    Hebrew,
    Devanagari,
    Greek,
    Polish,
    Urdu,
    Japanese,
    SimplifiedMarker,
    TraditionalMarker,
}

/// `c` belongs to `script`.
pub open spec fn script_char(script: Script, c: char) -> bool {
    match script {
        Script::Cjk => lang::cjk::spec_is_cjk(c),
        Script::Cyr => lang::cyrillic::spec_is_cyrillic(c),
        Script::Hangul => lang::korean::spec_is_hangul(c),
        Script::Vietnamese => lang::vietnamese::spec_is_vietnamese(c),
        Script::Thai => lang::thai::spec_is_thai(c),
        Script::Turkish => lang::turkish::spec_is_turkish(c),
        Script::Ukrainian => lang::ukrainian::spec_is_ukrainian(c),
        Script::Arabic => lang::arabic::spec_is_arabic(c),
        Script::Persian => lang::persian::spec_is_persian(c),
        Script::Hebrew => lang::hebrew::spec_is_hebrew(c),
        Script::Devanagari => lang::hindi::spec_is_devanagari(c),
        Script::Greek => lang::greek::spec_is_greek(c),
        Script::Polish => lang::polish::spec_is_polish(c),
        Script::Urdu => lang::urdu::spec_is_urdu(c),
        Script::Japanese => lang::japanese::spec_is_japanese(c),
        Script::SimplifiedMarker => lang::chinese::spec_is_simplified_marker(c),
        Script::TraditionalMarker => lang::chinese::spec_is_traditional_marker(c),
    }
}

/// Some character of `line` belongs to `script`.
pub open spec fn line_has(line: Seq<char>, script: Script) -> bool {
    exists|i: int| 0 <= i < line.len() && #[trigger] script_char(script, line[i])
}

/// Detecting `lang` needs the scan to look for `script`.
pub open spec fn lang_needs(lang: Lang, script: Script) -> bool {
    match script {
        Script::Cjk => lang == Lang::Cjk || lang == Lang::ZhHans || lang == Lang::ZhHant || lang == Lang::Ja,
        Script::Cyr => lang == Lang::Ru,
        Script::Hangul => lang == Lang::Ko || lang == Lang::KoKp || lang == Lang::KoKr,
        Script::Vietnamese => lang == Lang::Vi,
        Script::Thai => lang == Lang::Th,
        Script::Turkish => lang == Lang::Tr,
        Script::Ukrainian => lang == Lang::Uk,
        Script::Arabic => lang == Lang::Ar,
        Script::Persian => lang == Lang::Fa,
        Script::Hebrew => lang == Lang::He,
        Script::Devanagari => lang == Lang::Hi,
        Script::Greek => lang == Lang::El,
        Script::Polish => lang == Lang::Pl,
        Script::Urdu => lang == Lang::Ur,
        Script::Japanese => lang == Lang::Ja,
        Script::SimplifiedMarker => lang == Lang::ZhHans,
        Script::TraditionalMarker => lang == Lang::ZhHant,
    }
}

/// Which scripts were seen on a line.
#[derive(Debug)]
pub struct Flags {
    pub has_cjk: bool,
    pub has_cyr: bool,
    pub has_hangul: bool,
    pub has_vietnamese: bool,
    pub has_thai: bool,
    pub has_turkish: bool,
    pub has_ukrainian: bool,
    pub has_arabic: bool,
    pub has_persian: bool,
    pub has_hebrew: bool,
    pub has_devanagari: bool,
    pub has_greek: bool,
    pub has_polish: bool,
    pub has_urdu: bool,
    pub has_japanese: bool,
    pub has_simplified_marker: bool,
    pub has_traditional_marker: bool,
}

impl Flags {
    /// Whether `script` was seen.
    pub open spec fn has(self, script: Script) -> bool {
        match script {
            Script::Cjk => self.has_cjk,
            Script::Cyr => self.has_cyr,
            Script::Hangul => self.has_hangul,
            Script::Vietnamese => self.has_vietnamese,
            Script::Thai => self.has_thai,
            Script::Turkish => self.has_turkish,
            Script::Ukrainian => self.has_ukrainian,
            Script::Arabic => self.has_arabic,
            Script::Persian => self.has_persian,
            Script::Hebrew => self.has_hebrew,
            Script::Devanagari => self.has_devanagari,
            Script::Greek => self.has_greek,
            Script::Polish => self.has_polish,
            Script::Urdu => self.has_urdu,
            Script::Japanese => self.has_japanese,
            Script::SimplifiedMarker => self.has_simplified_marker,
            Script::TraditionalMarker => self.has_traditional_marker,
        }
    }
}

impl Default for Flags {
    fn default() -> (f: Flags)
        ensures
            !f.has_cjk,
            !f.has_cyr,
            !f.has_hangul,
            !f.has_vietnamese,
            !f.has_thai,
            !f.has_turkish,
            !f.has_ukrainian,
            !f.has_arabic,
            !f.has_persian,
            !f.has_hebrew,
            !f.has_devanagari,
            !f.has_greek,
            !f.has_polish,
            !f.has_urdu,
            !f.has_japanese,
            !f.has_simplified_marker,
            !f.has_traditional_marker,
    {
        Flags {
            has_cjk: false,
            has_cyr: false,
            has_hangul: false,
            has_vietnamese: false,
            has_thai: false,
            has_turkish: false,
            has_ukrainian: false,
            has_arabic: false,
            has_persian: false,
            has_hebrew: false,
            has_devanagari: false,
            has_greek: false,
            has_polish: false,
            has_urdu: false,
            has_japanese: false,
            has_simplified_marker: false,
            has_traditional_marker: false,
        }
    }
}

/// Which scripts a scan has to look for.
#[derive(Debug)]
pub struct ScanPlan {
    pub need_cjk: bool,
    pub need_cyr: bool,
    pub need_hangul: bool,
    pub need_vietnamese: bool,
    pub need_thai: bool,
    pub need_turkish: bool,
    pub need_ukrainian: bool,
    pub need_arabic: bool,
    pub need_persian: bool,
    pub need_hebrew: bool,
    pub need_devanagari: bool,
    pub need_greek: bool,
    pub need_polish: bool,
    pub need_urdu: bool,
    pub need_japanese: bool,
    pub need_simplified_marker: bool,
    pub need_traditional_marker: bool,
}

impl Default for ScanPlan {
    fn default() -> (p: ScanPlan)
        ensures
            !p.need_cjk,
            !p.need_cyr,
            !p.need_hangul,
            !p.need_vietnamese,
            !p.need_thai,
            !p.need_turkish,
            !p.need_ukrainian,
            !p.need_arabic,
            !p.need_persian,
            !p.need_hebrew,
            !p.need_devanagari,
            !p.need_greek,
            !p.need_polish,
            !p.need_urdu,
            !p.need_japanese,
            !p.need_simplified_marker,
            !p.need_traditional_marker,
    {
        ScanPlan {
            need_cjk: false,
            need_cyr: false,
            need_hangul: false,
            need_vietnamese: false,
            need_thai: false,
            need_turkish: false,
            need_ukrainian: false,
            need_arabic: false,
            need_persian: false,
            need_hebrew: false,
            need_devanagari: false,
            need_greek: false,
            need_polish: false,
            need_urdu: false,
            need_japanese: false,
            need_simplified_marker: false,
            need_traditional_marker: false,
        }
    }
}

/// Some language of `langs` needs `script`.
pub open spec fn langs_need(langs: Seq<Lang>, script: Script) -> bool {
    exists|i: int| 0 <= i < langs.len() && #[trigger] lang_needs(langs[i], script)
}

/// Marks every script that `lang` needs.
fn add_needs(plan: ScanPlan, lang: Lang) -> (r: ScanPlan)
    ensures
        r.need_cjk == (plan.need_cjk || lang_needs(lang, Script::Cjk)),
        r.need_cyr == (plan.need_cyr || lang_needs(lang, Script::Cyr)),
        r.need_hangul == (plan.need_hangul || lang_needs(lang, Script::Hangul)),
        r.need_vietnamese == (plan.need_vietnamese || lang_needs(lang, Script::Vietnamese)),
        r.need_thai == (plan.need_thai || lang_needs(lang, Script::Thai)),
        r.need_turkish == (plan.need_turkish || lang_needs(lang, Script::Turkish)),
        r.need_ukrainian == (plan.need_ukrainian || lang_needs(lang, Script::Ukrainian)),
        r.need_arabic == (plan.need_arabic || lang_needs(lang, Script::Arabic)),
        r.need_persian == (plan.need_persian || lang_needs(lang, Script::Persian)),
        r.need_hebrew == (plan.need_hebrew || lang_needs(lang, Script::Hebrew)),
        r.need_devanagari == (plan.need_devanagari || lang_needs(lang, Script::Devanagari)),
        r.need_greek == (plan.need_greek || lang_needs(lang, Script::Greek)),
        r.need_polish == (plan.need_polish || lang_needs(lang, Script::Polish)),
        r.need_urdu == (plan.need_urdu || lang_needs(lang, Script::Urdu)),
        r.need_japanese == (plan.need_japanese || lang_needs(lang, Script::Japanese)),
        r.need_simplified_marker == (plan.need_simplified_marker || lang_needs(lang, Script::SimplifiedMarker)),
        r.need_traditional_marker == (plan.need_traditional_marker || lang_needs(lang, Script::TraditionalMarker)),
{
    match lang {
        Lang::Cjk => {
            ScanPlan { need_cjk: true, ..plan }
        },
        Lang::ZhHans => {
            ScanPlan { need_cjk: true, need_simplified_marker: true, ..plan }
        },
        Lang::ZhHant => {
            ScanPlan { need_cjk: true, need_traditional_marker: true, ..plan }
        },
        Lang::Ru => {
            ScanPlan { need_cyr: true, ..plan }
        },
        Lang::Ko => {
            ScanPlan { need_hangul: true, ..plan }
        },
        Lang::KoKp => {
            ScanPlan { need_hangul: true, ..plan }
        },
        Lang::KoKr => {
            ScanPlan { need_hangul: true, ..plan }
        },
        Lang::Ja => {
            ScanPlan { need_cjk: true, need_japanese: true, ..plan }
        },
        Lang::Vi => {
            ScanPlan { need_vietnamese: true, ..plan }
        },
        Lang::Th => {
            ScanPlan { need_thai: true, ..plan }
        },
        Lang::Tr => {
            ScanPlan { need_turkish: true, ..plan }
        },
        Lang::Uk => {
            ScanPlan { need_ukrainian: true, ..plan }
        },
        Lang::Ar => {
            ScanPlan { need_arabic: true, ..plan }
        },
        Lang::Fa => {
            ScanPlan { need_persian: true, ..plan }
        },
        Lang::He => {
            ScanPlan { need_hebrew: true, ..plan }
        },
        Lang::Hi => {
            ScanPlan { need_devanagari: true, ..plan }
        },
        Lang::El => {
            ScanPlan { need_greek: true, ..plan }
        },
        Lang::Pl => {
            ScanPlan { need_polish: true, ..plan }
        },
        Lang::Ur => {
            ScanPlan { need_urdu: true, ..plan }
        },
    }
}

/// The plan that looks for exactly the scripts that some language of `langs` needs.
pub open spec fn plan_of(langs: Seq<Lang>) -> ScanPlan {
    ScanPlan {
        need_cjk: langs_need(langs, Script::Cjk),
        need_cyr: langs_need(langs, Script::Cyr),
        need_hangul: langs_need(langs, Script::Hangul),
        need_vietnamese: langs_need(langs, Script::Vietnamese),
        need_thai: langs_need(langs, Script::Thai),
        need_turkish: langs_need(langs, Script::Turkish),
        need_ukrainian: langs_need(langs, Script::Ukrainian),
        need_arabic: langs_need(langs, Script::Arabic),
        need_persian: langs_need(langs, Script::Persian),
        need_hebrew: langs_need(langs, Script::Hebrew),
        need_devanagari: langs_need(langs, Script::Devanagari),
        need_greek: langs_need(langs, Script::Greek),
        need_polish: langs_need(langs, Script::Polish),
        need_urdu: langs_need(langs, Script::Urdu),
        need_japanese: langs_need(langs, Script::Japanese),
        need_simplified_marker: langs_need(langs, Script::SimplifiedMarker),
        need_traditional_marker: langs_need(langs, Script::TraditionalMarker),
    }
}

/// Every script of `plan` has been seen according to `flags`.
pub open spec fn plan_complete(plan: ScanPlan, flags: Flags) -> bool {
    (!plan.need_cjk || flags.has_cjk)
    && (!plan.need_cyr || flags.has_cyr)
    && (!plan.need_hangul || flags.has_hangul)
    && (!plan.need_vietnamese || flags.has_vietnamese)
    && (!plan.need_thai || flags.has_thai)
    && (!plan.need_turkish || flags.has_turkish)
    && (!plan.need_ukrainian || flags.has_ukrainian)
    && (!plan.need_arabic || flags.has_arabic)
    && (!plan.need_persian || flags.has_persian)
    && (!plan.need_hebrew || flags.has_hebrew)
    && (!plan.need_devanagari || flags.has_devanagari)
    && (!plan.need_greek || flags.has_greek)
    && (!plan.need_polish || flags.has_polish)
    && (!plan.need_urdu || flags.has_urdu)
    && (!plan.need_japanese || flags.has_japanese)
    && (!plan.need_simplified_marker || flags.has_simplified_marker)
    && (!plan.need_traditional_marker || flags.has_traditional_marker)
}

/// One more language adds what it needs.
proof fn lemma_langs_need_step(langs: Seq<Lang>, i: int, s: Script)
    requires
        0 <= i < langs.len(),
    ensures
        langs_need(langs.take(i + 1), s) == (langs_need(langs.take(i), s) || lang_needs(langs[i], s)),
{
    let prefix = langs.take(i + 1);
    assert(prefix[i] == langs[i]);
    if langs_need(langs.take(i), s) {
        let j = choose|j: int| 0 <= j < i && #[trigger] lang_needs(langs.take(i)[j], s);
        assert(prefix[j] == langs.take(i)[j]);
    }
    if langs_need(prefix, s) {
        let j = choose|j: int| 0 <= j < i + 1 && #[trigger] lang_needs(prefix[j], s);
        if j < i {
            assert(prefix[j] == langs.take(i)[j]);
        }
    }
}

impl ScanPlan {
    /// Whether `script` is looked for.
    pub open spec fn needs(self, script: Script) -> bool {
        match script {
            Script::Cjk => self.need_cjk,
            Script::Cyr => self.need_cyr,
            Script::Hangul => self.need_hangul,
            Script::Vietnamese => self.need_vietnamese,
            Script::Thai => self.need_thai,
            Script::Turkish => self.need_turkish,
            Script::Ukrainian => self.need_ukrainian,
            Script::Arabic => self.need_arabic,
            Script::Persian => self.need_persian,
            Script::Hebrew => self.need_hebrew,
            Script::Devanagari => self.need_devanagari,
            Script::Greek => self.need_greek,
            Script::Polish => self.need_polish,
            Script::Urdu => self.need_urdu,
            Script::Japanese => self.need_japanese,
            Script::SimplifiedMarker => self.need_simplified_marker,
            Script::TraditionalMarker => self.need_traditional_marker,
        }
    }

    /// The plan that looks for exactly the scripts that some language of `langs` needs.
    pub fn from_langs(langs: &[Lang]) -> (plan: ScanPlan)
        ensures
            plan == plan_of(langs@),
    {
        let mut plan = ScanPlan::default();
        assert(langs@.take(0) =~= Seq::<Lang>::empty());
        let mut i: usize = 0;
        while i < langs.len()
            invariant
                i <= langs.len(),
                plan == plan_of(langs@.take(i as int)),
            decreases langs.len() - i,
        {
            let lang = langs[i];
            plan = add_needs(plan, lang);
            proof {
                lemma_langs_need_step(langs@, i as int, Script::Cjk);
                lemma_langs_need_step(langs@, i as int, Script::Cyr);
                lemma_langs_need_step(langs@, i as int, Script::Hangul);
                lemma_langs_need_step(langs@, i as int, Script::Vietnamese);
                lemma_langs_need_step(langs@, i as int, Script::Thai);
                lemma_langs_need_step(langs@, i as int, Script::Turkish);
                lemma_langs_need_step(langs@, i as int, Script::Ukrainian);
                lemma_langs_need_step(langs@, i as int, Script::Arabic);
                lemma_langs_need_step(langs@, i as int, Script::Persian);
                lemma_langs_need_step(langs@, i as int, Script::Hebrew);
                lemma_langs_need_step(langs@, i as int, Script::Devanagari);
                lemma_langs_need_step(langs@, i as int, Script::Greek);
                lemma_langs_need_step(langs@, i as int, Script::Polish);
                lemma_langs_need_step(langs@, i as int, Script::Urdu);
                lemma_langs_need_step(langs@, i as int, Script::Japanese);
                lemma_langs_need_step(langs@, i as int, Script::SimplifiedMarker);
                lemma_langs_need_step(langs@, i as int, Script::TraditionalMarker);
            }
            i = i + 1;
        }
        assert(langs@.take(langs@.len() as int) == langs@);
        plan
    }

    /// Whether every script of the plan has been seen.
    pub fn is_complete(&self, flags: &Flags) -> (r: bool)
        ensures
            r == plan_complete(*self, *flags),
    {
        (!self.need_cjk || flags.has_cjk)
            && (!self.need_cyr || flags.has_cyr)
            && (!self.need_hangul || flags.has_hangul)
            && (!self.need_vietnamese || flags.has_vietnamese)
            && (!self.need_thai || flags.has_thai)
            && (!self.need_turkish || flags.has_turkish)
            && (!self.need_ukrainian || flags.has_ukrainian)
            && (!self.need_arabic || flags.has_arabic)
            && (!self.need_persian || flags.has_persian)
            && (!self.need_hebrew || flags.has_hebrew)
            && (!self.need_devanagari || flags.has_devanagari)
            && (!self.need_greek || flags.has_greek)
            && (!self.need_polish || flags.has_polish)
            && (!self.need_urdu || flags.has_urdu)
            && (!self.need_japanese || flags.has_japanese)
            && (!self.need_simplified_marker || flags.has_simplified_marker)
            && (!self.need_traditional_marker || flags.has_traditional_marker)
    }
}

} // verus!
