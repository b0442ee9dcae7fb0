//! Highlighting of the matched characters and keywords of a line with ANSI colours.
use vstd::prelude::*;

use crate::lang::keywords::words_view;
use crate::lang::{KeywordMap, Lang};
use crate::text::{matches_at, occurs_at, push_char, push_str};

use super::detect::{is_highlight_char, spec_is_highlight_char};

verus! {

/// The escape sequence that starts a highlighted run (red foreground).
pub open spec fn mark_on() -> Seq<char> {
    seq!['\x1b', '[', '3', '1', 'm']
}

/// The escape sequence that ends a highlighted run (reset).
pub open spec fn mark_off() -> Seq<char> {
    seq!['\x1b', '[', '0', 'm']
}

/// `c` belongs to the script or marker set of some language of `langs`.
pub open spec fn char_highlighted(langs: Seq<Lang>, c: char) -> bool {
    exists|j: int| 0 <= j < langs.len() && #[trigger] spec_is_highlight_char(langs[j], c)
}

/// Position `i` lies inside an occurrence of `kw` found by scanning `line` from
/// `pos` for non-overlapping occurrences, left to right (as `str::match_indices`
/// does). The empty word covers nothing.
pub open spec fn covered_from(line: Seq<char>, kw: Seq<char>, pos: int, i: int) -> bool
    decreases line.len() - pos,
{
    if kw.len() == 0 || pos < 0 || pos + kw.len() > line.len() {
        false
    } else if occurs_at(line, kw, pos) {
        (pos <= i < pos + kw.len()) || covered_from(line, kw, pos + kw.len(), i)
    } else {
        covered_from(line, kw, pos + 1, i)
    }
}

/// Position `i` of `line` lies inside one of the non-overlapping occurrences of `kw`.
pub open spec fn keyword_covers(line: Seq<char>, kw: Seq<char>, i: int) -> bool {
    covered_from(line, kw, 0, i)
}

/// Position `i` of `line` lies inside an occurrence of a keyword of `lang`.
pub open spec fn lang_keyword_covers(
    line: Seq<char>,
    keywords: Map<Lang, Seq<Seq<char>>>,
    lang: Lang,
    i: int,
) -> bool {
    &&& keywords.dom().contains(lang)
    &&& exists|k: int| 0 <= k < keywords[lang].len() && #[trigger] keyword_covers(line, keywords[lang][k], i)
}

/// Position `i` of `line` is highlighted for `langs`: its character belongs to
/// one of their scripts, or it lies inside one of their keywords.
pub open spec fn position_marked(
    line: Seq<char>,
    langs: Seq<Lang>,
    keywords: Map<Lang, Seq<Seq<char>>>,
    i: int,
) -> bool {
    ||| char_highlighted(langs, line[i])
    ||| exists|j: int| 0 <= j < langs.len() && #[trigger] lang_keyword_covers(line, keywords, langs[j], i)
}

/// Which positions of `line` are highlighted for `langs`.
pub open spec fn marks_of(line: Seq<char>, langs: Seq<Lang>, keywords: Map<Lang, Seq<Seq<char>>>) -> Seq<bool> {
    Seq::new(line.len(), |i: int| position_marked(line, langs, keywords, i))
}

/// `chars` with every maximal run of marked characters wrapped in `mark_on()`
/// and `mark_off()`; `in_mark` says whether a run is already open.
pub open spec fn render(chars: Seq<char>, marks: Seq<bool>, in_mark: bool) -> Seq<char>
    decreases chars.len(),
{
    if chars.len() == 0 {
        if in_mark {
            mark_off()
        } else {
            Seq::empty()
        }
    } else {
        let m = marks[0];
        let prefix = if m && !in_mark {
            mark_on()
        } else if !m && in_mark {
            mark_off()
        } else {
            Seq::empty()
        };
        prefix + seq![chars[0]] + render(chars.drop_first(), marks.drop_first(), m)
    }
}

/// `line` with its highlighted positions wrapped in colour escapes.
pub open spec fn spec_highlight(line: Seq<char>, langs: Seq<Lang>, keywords: Map<Lang, Seq<Seq<char>>>) -> Seq<char> {
    render(line, marks_of(line, langs, keywords), false)
}

proof fn lemma_covered_from_after(line: Seq<char>, kw: Seq<char>, pos: int, i: int)
    requires
        covered_from(line, kw, pos, i),
    ensures
        i >= pos,
    decreases line.len() - pos,
{
    if kw.len() == 0 || pos < 0 || pos + kw.len() > line.len() {
    } else if occurs_at(line, kw, pos) {
        if !(pos <= i < pos + kw.len()) {
            lemma_covered_from_after(line, kw, pos + kw.len(), i);
        }
    } else {
        lemma_covered_from_after(line, kw, pos + 1, i);
    }
}

/// Marks the positions of `line` that lie inside the non-overlapping
/// occurrences of `kw`.
fn mark_keyword(line: &[char], kw: &[char], marks: &mut Vec<bool>)
    requires
        old(marks)@.len() == line@.len(),
    ensures
        final(marks)@.len() == line@.len(),
        forall|i: int| 0 <= i < line@.len() ==> #[trigger] final(marks)@[i] == (old(marks)@[i] || keyword_covers(line@, kw@, i)),
{
    let ghost start = marks@;
    let n = line.len();
    let mut pos: usize = 0;
    while kw.len() > 0 && pos <= n && kw.len() <= n - pos
        invariant
            n == line@.len(),
            pos <= n,
            marks@.len() == n,
            forall|i: int| 0 <= i < n ==> #[trigger] marks@[i] == (start[i] || (i < pos && keyword_covers(line@, kw@, i))),
            forall|i: int| pos <= i < n ==> keyword_covers(line@, kw@, i) == covered_from(line@, kw@, pos as int, i),
        decreases n - pos,
    {
        if matches_at(line, kw, pos) {
            let end = pos + kw.len();
            let mut k: usize = pos;
            while k < end
                invariant
                    pos <= k <= end,
                    end == pos + kw@.len(),
                    end <= n,
                    n == line@.len(),
                    marks@.len() == n,
                    forall|i: int| 0 <= i < n ==> #[trigger] marks@[i] == (start[i] || (i < pos && keyword_covers(line@, kw@, i)) || (pos <= i < k)),
                decreases end - k,
            {
                marks.set(k, true);
                k = k + 1;
            }
            proof {
                assert forall|i: int| pos <= i < n implies covered_from(line@, kw@, pos as int, i) == ((pos <= i < end) || covered_from(line@, kw@, end as int, i)) by {
                }
                assert forall|i: int| 0 <= i < end implies !covered_from(line@, kw@, end as int, i) by {
                    if covered_from(line@, kw@, end as int, i) {
                        lemma_covered_from_after(line@, kw@, end as int, i);
                    }
                }
            }
            pos = end;
        } else {
            proof {
                assert forall|i: int| pos <= i < n implies covered_from(line@, kw@, pos as int, i) == covered_from(line@, kw@, pos + 1, i) by {
                }
                if covered_from(line@, kw@, pos + 1, pos as int) {
                    lemma_covered_from_after(line@, kw@, pos + 1, pos as int);
                }
            }
            pos = pos + 1;
        }
    }
    assert forall|i: int| pos <= i < n implies !covered_from(line@, kw@, pos as int, i) by {
    }
}

/// Whether `c` belongs to the script or marker set of some language of `langs`.
fn char_marked(langs: &[Lang], c: char) -> (r: bool)
    ensures
        r == char_highlighted(langs@, c),
{
    let mut j: usize = 0;
    while j < langs.len()
        invariant
            j <= langs.len(),
            forall|t: int| 0 <= t < j ==> !#[trigger] spec_is_highlight_char(langs@[t], c),
        decreases langs.len() - j,
    {
        if is_highlight_char(langs[j], c) {
            return true;
        }
        j = j + 1;
    }
    false
}

/// `line` with the characters of the scripts of `langs`, and the
/// non-overlapping occurrences of their keywords, wrapped in red colour escapes;
/// adjacent highlighted characters share one escape pair.
pub fn highlight_line(line: &[char], langs: &[Lang], keyword_map: &KeywordMap) -> (out: String)
    ensures
        out@ == spec_highlight(line@, langs@, keyword_map@),
{
    let n = line.len();
    let ghost kws = keyword_map@;
    let mut marks: Vec<bool> = Vec::new();
    let mut i: usize = 0;
    while i < n
        invariant
            i <= n,
            n == line@.len(),
            marks@.len() == i,
            forall|t: int| 0 <= t < i ==> #[trigger] marks@[t] == char_highlighted(langs@, line@[t]),
        decreases n - i,
    {
        marks.push(char_marked(langs, line[i]));
        i = i + 1;
    }
    let mut j: usize = 0;
    while j < langs.len()
        invariant
            j <= langs.len(),
            n == line@.len(),
            marks@.len() == n,
            kws == keyword_map@,
            forall|t: int| 0 <= t < n ==> #[trigger] marks@[t] == (char_highlighted(langs@, line@[t]) || exists|u: int| 0 <= u < j && #[trigger] lang_keyword_covers(line@, kws, langs@[u], t)),
        decreases langs.len() - j,
    {
        let ghost before = marks@;
        if let Some(words) = keyword_map.get(langs[j]) {
            let mut k: usize = 0;
            while k < words.len()
                invariant
                    k <= words.len(),
                    n == line@.len(),
                    marks@.len() == n,
                    words_view(words@) == kws[langs@[j as int]],
                    forall|t: int| 0 <= t < n ==> #[trigger] marks@[t] == (before[t] || exists|v: int| 0 <= v < k && #[trigger] keyword_covers(line@, words_view(words@)[v], t)),
                decreases words.len() - k,
            {
                let ghost prev = marks@;
                mark_keyword(line, words[k].as_slice(), &mut marks);
                assert forall|t: int| 0 <= t < n implies #[trigger] marks@[t] == (before[t] || exists|v: int| 0 <= v < k + 1 && #[trigger] keyword_covers(line@, words_view(words@)[v], t)) by {
                    assert(words_view(words@)[k as int] == words@[k as int]@);
                    if exists|v: int| 0 <= v < k + 1 && #[trigger] keyword_covers(line@, words_view(words@)[v], t) {
                        let v = choose|v: int| 0 <= v < k + 1 && #[trigger] keyword_covers(line@, words_view(words@)[v], t);
                        if v < k {
                            assert(prev[t]);
                        }
                    }
                }
                k = k + 1;
            }
            assert forall|t: int| 0 <= t < n implies #[trigger] marks@[t] == (char_highlighted(langs@, line@[t]) || exists|u: int| 0 <= u < j + 1 && #[trigger] lang_keyword_covers(line@, kws, langs@[u], t)) by {
                if lang_keyword_covers(line@, kws, langs@[j as int], t) {
                    let v = choose|v: int| 0 <= v < kws[langs@[j as int]].len() && #[trigger] keyword_covers(line@, kws[langs@[j as int]][v], t);
                    assert(keyword_covers(line@, words_view(words@)[v], t));
                }
                if exists|v: int| 0 <= v < words@.len() && #[trigger] keyword_covers(line@, words_view(words@)[v], t) {
                    let v = choose|v: int| 0 <= v < words@.len() && #[trigger] keyword_covers(line@, words_view(words@)[v], t);
                    assert(lang_keyword_covers(line@, kws, langs@[j as int], t));
                }
            }
        } else {
            assert forall|t: int| 0 <= t < n implies #[trigger] marks@[t] == (char_highlighted(langs@, line@[t]) || exists|u: int| 0 <= u < j + 1 && #[trigger] lang_keyword_covers(line@, kws, langs@[u], t)) by {
                assert(!lang_keyword_covers(line@, kws, langs@[j as int], t));
            }
        }
        j = j + 1;
    }
    let ghost ms = marks_of(line@, langs@, kws);
    assert(marks@ =~= ms);
    let mut out = String::new();
    let mut in_mark = false;
    let mut i: usize = 0;
    assert(line@.skip(0) == line@ && marks@.skip(0) == marks@);
    while i < n
        invariant
            i <= n,
            n == line@.len(),
            marks@ == ms,
            ms.len() == n,
            out@ + render(line@.skip(i as int), ms.skip(i as int), in_mark) == render(line@, ms, false),
        decreases n - i,
    {
        let m = marks[i];
        let ghost rest = line@.skip(i as int);
        assert(rest[0] == line@[i as int]);
        assert(rest.drop_first() == line@.skip(i + 1));
        assert(ms.skip(i as int)[0] == m);
        assert(ms.skip(i as int).drop_first() == ms.skip(i + 1));
        let ghost out0 = out@;
        let ghost im = in_mark;
        if m && !in_mark {
            proof {
                reveal_strlit("\x1b[31m");
            }
            push_str(&mut out, "\x1b[31m");
            in_mark = true;
        } else if !m && in_mark {
            proof {
                reveal_strlit("\x1b[0m");
            }
            push_str(&mut out, "\x1b[0m");
            in_mark = false;
        }
        push_char(&mut out, line[i]);
        proof {
            let pre = if m && !im {
                mark_on()
            } else if !m && im {
                mark_off()
            } else {
                Seq::<char>::empty()
            };
            assert(out@ =~= out0 + pre + seq![line@[i as int]]);
            assert(render(rest, ms.skip(i as int), im) == pre + seq![rest[0]] + render(
                rest.drop_first(),
                ms.skip(i as int).drop_first(),
                m,
            ));
            assert(in_mark == m);
            assert(out@ + render(line@.skip(i + 1), ms.skip(i + 1), in_mark) =~= out0 + render(
                rest,
                ms.skip(i as int),
                im,
            ));
        }
        i = i + 1;
    }
    if in_mark {
        proof {
            reveal_strlit("\x1b[0m");
        }
        push_str(&mut out, "\x1b[0m");
    }
    out
}

/// `s` begins with `p`.
pub open spec fn begins_with(s: Seq<char>, p: Seq<char>) -> bool {
    p.len() <= s.len() && s.take(p.len() as int) == p
}

/// `s` with every colour escape removed, reading left to right.
pub open spec fn strip_marks(s: Seq<char>) -> Seq<char>
    decreases s.len(),
{
    if s.len() == 0 {
        Seq::empty()
    } else if begins_with(s, mark_on()) {
        strip_marks(s.skip(mark_on().len() as int))
    } else if begins_with(s, mark_off()) {
        strip_marks(s.skip(mark_off().len() as int))
    } else {
        seq![s[0]] + strip_marks(s.drop_first())
    }
}

/// How many highlight openings `mark_on()` occur in `s`, reading left to right.
pub open spec fn count_mark_on(s: Seq<char>) -> nat
    decreases s.len(),
{
    if s.len() == 0 {
        0
    } else if begins_with(s, mark_on()) {
        1 + count_mark_on(s.skip(mark_on().len() as int))
    } else if begins_with(s, mark_off()) {
        count_mark_on(s.skip(mark_off().len() as int))
    } else {
        count_mark_on(s.drop_first())
    }
}

/// How many highlight closings `mark_off()` occur in `s`, reading left to right.
pub open spec fn count_mark_off(s: Seq<char>) -> nat
    decreases s.len(),
{
    if s.len() == 0 {
        0
    } else if begins_with(s, mark_on()) {
        count_mark_off(s.skip(mark_on().len() as int))
    } else if begins_with(s, mark_off()) {
        1 + count_mark_off(s.skip(mark_off().len() as int))
    } else {
        count_mark_off(s.drop_first())
    }
}

proof fn lemma_strip_mark_on(x: Seq<char>)
    ensures
        strip_marks(mark_on() + x) == strip_marks(x),
        count_mark_on(mark_on() + x) == count_mark_on(x) + 1,
        count_mark_off(mark_on() + x) == count_mark_off(x),
{
    let s = mark_on() + x;
    assert(s.take(5) =~= mark_on());
    assert(s.skip(5) =~= x);
}

proof fn lemma_strip_mark_off(x: Seq<char>)
    ensures
        strip_marks(mark_off() + x) == strip_marks(x),
        count_mark_on(mark_off() + x) == count_mark_on(x),
        count_mark_off(mark_off() + x) == count_mark_off(x) + 1,
{
    let s = mark_off() + x;
    assert(s[2] == '0');
    assert(!begins_with(s, mark_on())) by {
        if begins_with(s, mark_on()) {
            assert(s.take(5)[2] == mark_on()[2]);
        }
    }
    assert(s.take(4) =~= mark_off());
    assert(s.skip(4) =~= x);
}

proof fn lemma_strip_plain(c: char, x: Seq<char>)
    requires
        c != '\x1b',
    ensures
        strip_marks(seq![c] + x) == seq![c] + strip_marks(x),
        count_mark_on(seq![c] + x) == count_mark_on(x),
        count_mark_off(seq![c] + x) == count_mark_off(x),
{
    let s = seq![c] + x;
    assert(s[0] == c);
    assert(!begins_with(s, mark_on())) by {
        if begins_with(s, mark_on()) {
            assert(s.take(5)[0] == mark_on()[0]);
        }
    }
    assert(!begins_with(s, mark_off())) by {
        if begins_with(s, mark_off()) {
            assert(s.take(4)[0] == mark_off()[0]);
        }
    }
    assert(s.drop_first() =~= x);
}

proof fn lemma_render_strips(chars: Seq<char>, marks: Seq<bool>, in_mark: bool)
    requires
        marks.len() == chars.len(),
        forall|i: int| 0 <= i < chars.len() ==> chars[i] != '\x1b',
    ensures
        strip_marks(render(chars, marks, in_mark)) == chars,
        count_mark_on(render(chars, marks, in_mark)) + (if in_mark { 1nat } else { 0nat })
            == count_mark_off(render(chars, marks, in_mark)),
    decreases chars.len(),
{
    if chars.len() == 0 {
        if in_mark {
            lemma_strip_mark_off(Seq::empty());
            assert(mark_off() + Seq::<char>::empty() =~= mark_off());
        }
    } else {
        let m = marks[0];
        let rest = render(chars.drop_first(), marks.drop_first(), m);
        lemma_render_strips(chars.drop_first(), marks.drop_first(), m);
        lemma_strip_plain(chars[0], rest);
        let tail = seq![chars[0]] + rest;
        if m && !in_mark {
            lemma_strip_mark_on(tail);
            assert(mark_on() + seq![chars[0]] + rest =~= mark_on() + tail);
        } else if !m && in_mark {
            lemma_strip_mark_off(tail);
            assert(mark_off() + seq![chars[0]] + rest =~= mark_off() + tail);
        } else {
            assert(Seq::<char>::empty() + seq![chars[0]] + rest =~= tail);
        }
        assert(seq![chars[0]] + chars.drop_first() =~= chars);
    }
}

/// Highlighting only adds colour escapes: on a line without an escape
/// character, removing the escapes from the highlighted line gives the line
/// back, and every opening escape is matched by a closing one. With no
/// language to highlight, the line comes back unchanged.
pub proof fn lemma_highlight_strips_back(line: Seq<char>, langs: Seq<Lang>, keywords: Map<Lang, Seq<Seq<char>>>)
    ensures
        (forall|i: int| 0 <= i < line.len() ==> line[i] != '\x1b') ==> {
            &&& strip_marks(spec_highlight(line, langs, keywords)) == line
            &&& count_mark_on(spec_highlight(line, langs, keywords)) == count_mark_off(spec_highlight(line, langs, keywords))
        },
        langs.len() == 0 ==> spec_highlight(line, langs, keywords) == line,
{
    if forall|i: int| 0 <= i < line.len() ==> line[i] != '\x1b' {
        lemma_render_strips(line, marks_of(line, langs, keywords), false);
    }
    if langs.len() == 0 {
        lemma_unmarked_line_unchanged(line, langs, keywords);
    }
}

proof fn lemma_render_unmarked(chars: Seq<char>, marks: Seq<bool>)
    requires
        marks.len() == chars.len(),
        forall|i: int| 0 <= i < marks.len() ==> !#[trigger] marks[i],
    ensures
        render(chars, marks, false) == chars,
    decreases chars.len(),
{
    if chars.len() > 0 {
        assert(!marks[0]);
        assert forall|i: int| 0 <= i < marks.drop_first().len() implies !#[trigger] marks.drop_first()[i] by {
            assert(marks.drop_first()[i] == marks[i + 1]);
        }
        lemma_render_unmarked(chars.drop_first(), marks.drop_first());
        assert(chars =~= seq![chars[0]] + chars.drop_first());
        assert(Seq::<char>::empty() + seq![chars[0]] + chars.drop_first() =~= chars);
    }
}

/// Highlighting adds nothing to a line on which no character belongs to the
/// scripts of `langs` and no keyword of theirs occurs: the line comes back as it was.
pub proof fn lemma_unmarked_line_unchanged(line: Seq<char>, langs: Seq<Lang>, keywords: Map<Lang, Seq<Seq<char>>>)
    requires
        forall|i: int| 0 <= i < line.len() ==> !#[trigger] position_marked(line, langs, keywords, i),
    ensures
        spec_highlight(line, langs, keywords) == line,
{
    let marks = marks_of(line, langs, keywords);
    assert forall|i: int| 0 <= i < marks.len() implies !#[trigger] marks[i] by {
        assert(!position_marked(line, langs, keywords, i));
    }
    lemma_render_unmarked(line, marks);
}

} // verus!
