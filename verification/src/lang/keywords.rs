//! Keyword hints: words whose presence in a line points to a language.
use vstd::prelude::*;

use crate::text::{chars_of, push_char, trim, trim_chars};

use super::chinese;
use super::korean;
use super::chinese::{simplified_markers, traditional_markers};
use super::{lang_at, lang_index, parse_lang, spec_lang_index, spec_parse_lang, Lang, LANG_COUNT};

verus! {

/// The contents of a sequence of strings.
pub open spec fn strings_view(v: Seq<String>) -> Seq<Seq<char>> {
    v.map_values(|s: String| s@)
}

/// The contents of a sequence of string literals.
pub open spec fn str_words(v: Seq<&str>) -> Seq<Seq<char>> {
    v.map_values(|s: &str| s@)
}

/// Every character of `v` as a one-letter word.
pub open spec fn char_words(v: Seq<char>) -> Seq<Seq<char>> {
    v.map_values(|c: char| seq![c])
}

/// The contents of a sequence of character vectors.
pub open spec fn words_view(v: Seq<Vec<char>>) -> Seq<Seq<char>> {
    v.map_values(|w: Vec<char>| w@)
}

/// Owned copies of the strings of `table`.
pub fn strings_of(table: &[&str]) -> (r: Vec<String>)
    ensures
        strings_view(r@) == str_words(table@),
{
    let mut r: Vec<String> = Vec::new();
    let mut i: usize = 0;
    while i < table.len()
        invariant
            i <= table.len(),
            strings_view(r@) == str_words(table@.take(i as int)),
        decreases table.len() - i,
    {
        r.push(table[i].to_owned());
        assert(str_words(table@.take(i + 1)) =~= str_words(table@.take(i as int)).push(
            table@[i as int]@,
        ));
        assert(strings_view(r@) =~= strings_view(r@.drop_last()).push(r@.last()@));
        i = i + 1;
    }
    assert(table@.take(table@.len() as int) == table@);
    r
}

/// Appends every character of `table` to `out` as a one-letter string.
pub fn push_single_char_strings(out: &mut Vec<String>, table: &[char])
    ensures
        strings_view(final(out)@) == strings_view(old(out)@) + char_words(table@),
{
    let ghost start = strings_view(out@);
    let mut i: usize = 0;
    while i < table.len()
        invariant
            i <= table.len(),
            strings_view(out@) == start + char_words(table@.take(i as int)),
        decreases table.len() - i,
    {
        let mut s = String::new();
        push_char(&mut s, table[i]);
        assert(s@ =~= seq![table@[i as int]]);
        let ghost before = out@;
        out.push(s);
        assert(char_words(table@.take(i + 1)) =~= char_words(table@.take(i as int)).push(
            seq![table@[i as int]],
        ));
        assert(strings_view(out@) =~= strings_view(before).push(seq![table@[i as int]]));
        i = i + 1;
    }
    assert(table@.take(table@.len() as int) == table@);
}

/// The words listed for `lang` in `m`, or none when `lang` has no entry.
pub open spec fn words_of(m: Map<Lang, Seq<Seq<char>>>, lang: Lang) -> Seq<Seq<char>> {
    if m.dom().contains(lang) {
        m[lang]
    } else {
        Seq::empty()
    }
}

/// `m` with `words` appended to the entry of `lang`, creating the entry if needed.
pub open spec fn with_words(
    m: Map<Lang, Seq<Seq<char>>>,
    lang: Lang,
    words: Seq<Seq<char>>,
) -> Map<Lang, Seq<Seq<char>>> {
    m.insert(lang, words_of(m, lang) + words)
}

/// Keyword hints per language: a language either has no entry or a list of words.
#[derive(Debug)]
pub struct KeywordMap {
    lists: Vec<Option<Vec<Vec<char>>>>,
}

impl KeywordMap {
    #[verifier::type_invariant]
    spec fn one_slot_per_lang(self) -> bool {
        self.lists@.len() == LANG_COUNT
    }
}

impl View for KeywordMap {
    type V = Map<Lang, Seq<Seq<char>>>;

    closed spec fn view(&self) -> Map<Lang, Seq<Seq<char>>> {
        Map::new(
            |lang: Lang| self.lists@[spec_lang_index(lang) as int] is Some,
            |lang: Lang| words_view(self.lists@[spec_lang_index(lang) as int]->0@),
        )
    }
}

impl KeywordMap {
    /// A map without any entry.
    pub fn new() -> (m: KeywordMap)
        ensures
            m@ == Map::<Lang, Seq<Seq<char>>>::empty(),
    {
        let mut lists: Vec<Option<Vec<Vec<char>>>> = Vec::new();
        let mut i: usize = 0;
        while i < LANG_COUNT
            invariant
                i <= LANG_COUNT,
                lists@.len() == i,
                forall|j: int| 0 <= j < i ==> lists@[j] is None,
            decreases LANG_COUNT - i,
        {
            lists.push(None);
            i = i + 1;
        }
        let m = KeywordMap { lists };
        assert(m@ =~= Map::<Lang, Seq<Seq<char>>>::empty());
        m
    }

    /// The words listed for `lang`, if `lang` has an entry.
    pub fn get(&self, lang: Lang) -> (r: Option<&Vec<Vec<char>>>)
        ensures
            r is Some <==> self@.dom().contains(lang),
            r matches Some(words) ==> words_view(words@) == self@[lang],
    {
        proof {
            use_type_invariant(self);
        }
        match &self.lists[lang_index(lang)] {
            Some(words) => Some(words),
            None => None,
        }
    }

    /// This map with `new_words` appended to the entry of `lang`, the entry
    /// created if needed.
    pub fn extended(self, lang: Lang, new_words: Vec<Vec<char>>) -> (m: KeywordMap)
        ensures
            m@ == with_words(self@, lang, words_view(new_words@)),
    {
        proof {
            use_type_invariant(&self);
        }
        let ghost old_view = self@;
        let KeywordMap { mut lists } = self;
        let i = lang_index(lang);
        let mut slot: Option<Vec<Vec<char>>> = None;
        lists.set_and_swap(i, &mut slot);
        let mut list = match slot {
            Some(list) => list,
            None => Vec::new(),
        };
        let ghost before = list@;
        let mut words = new_words;
        list.append(&mut words);
        let mut filled = Some(list);
        lists.set_and_swap(i, &mut filled);
        let m = KeywordMap { lists };
        proof {
            assert forall|l: Lang| spec_lang_index(l) == i implies l == lang by {
                super::lemma_lang_index_at(l);
                super::lemma_lang_index_at(lang);
            }
            assert(words_view(before + new_words@) =~= words_view(before) + words_view(
                new_words@,
            ));
            assert(m@ =~= with_words(old_view, lang, words_view(new_words@)));
        }
        m
    }
}

/// Why a keyword entry was refused, with the message to show.
#[derive(Debug)]
pub struct KeywordError {
    pub message: String,
}

/// The built-in keyword hints: the Korean regional words and the Chinese marker
/// characters.
pub open spec fn built_in_keyword_map() -> Map<Lang, Seq<Seq<char>>> {
    Map::<Lang, Seq<Seq<char>>>::empty().insert(Lang::KoKp, korean::kp_keywords()).insert(
        Lang::KoKr,
        korean::kr_keywords(),
    ).insert(Lang::ZhHans, char_words(simplified_markers())).insert(
        Lang::ZhHant,
        char_words(traditional_markers()),
    )
}

/// The position of the first `c` in `s`, or `s.len()` when there is none.
pub open spec fn find_char(s: Seq<char>, c: char) -> nat
    decreases s.len(),
{
    if s.len() == 0 {
        0
    } else if s[0] == c {
        0
    } else {
        1 + find_char(s.drop_first(), c)
    }
}

/// The effect of one `lang=word` entry on `m`: the trimmed word is appended to
/// the language's list (an empty word is ignored); an entry without `=` or with
/// an unknown language is refused with its message.
pub open spec fn apply_entry(m: Map<Lang, Seq<Seq<char>>>, entry: Seq<char>) -> Result<
    Map<Lang, Seq<Seq<char>>>,
    Seq<char>,
> {
    let k = find_char(entry, '=');
    if k >= entry.len() {
        Err("keyword expects lang=word"@)
    } else {
        match spec_parse_lang(entry.take(k as int)) {
            Err(msg) => Err(msg),
            Ok(lang) => {
                let word = trim(entry.skip(k + 1 as int));
                if word.len() == 0 {
                    Ok(m)
                } else {
                    Ok(with_words(m, lang, seq![word]))
                }
            },
        }
    }
}

/// The entries applied in order to `m`; the first refused entry stops the fold.
pub open spec fn apply_entries(m: Map<Lang, Seq<Seq<char>>>, entries: Seq<Seq<char>>) -> Result<
    Map<Lang, Seq<Seq<char>>>,
    Seq<char>,
>
    decreases entries.len(),
{
    if entries.len() == 0 {
        Ok(m)
    } else {
        match apply_entry(m, entries[0]) {
            Err(msg) => Err(msg),
            Ok(m2) => apply_entries(m2, entries.drop_first()),
        }
    }
}

proof fn lemma_find_char(s: Seq<char>, c: char, k: int)
    requires
        0 <= k <= s.len(),
        forall|j: int| 0 <= j < k ==> s[j] != c,
        k == s.len() || s[k] == c,
    ensures
        find_char(s, c) == k,
    decreases k,
{
    if k > 0 {
        lemma_find_char(s.drop_first(), c, k - 1);
    }
}

/// `word` for a character vector.
fn to_chars(word: &String) -> (r: Vec<char>)
    ensures
        r@ == word@,
{
    chars_of(word.as_str())
}

/// Appends the built-in keyword lists of `table` to `map`, list by list.
fn add_built_in(map: KeywordMap, table: Vec<(Lang, Vec<String>)>) -> (r: KeywordMap)
    ensures
        table@.len() == 2 ==> r@ == with_words(
            with_words(map@, table@[0].0, strings_view(table@[0].1@)),
            table@[1].0,
            strings_view(table@[1].1@),
        ),
{
    let ghost start = map@;
    let mut map = map;
    let mut t: usize = 0;
    while t < table.len()
        invariant
            t <= table.len(),
            t == 0 ==> map@ == start,
            t == 1 ==> map@ == with_words(start, table@[0].0, strings_view(table@[0].1@)),
            t == 2 ==> map@ == with_words(
                with_words(start, table@[0].0, strings_view(table@[0].1@)),
                table@[1].0,
                strings_view(table@[1].1@),
            ),
        decreases table.len() - t,
    {
        let (lang, strings) = (table[t].0, &table[t].1);
        let mut words: Vec<Vec<char>> = Vec::new();
        let mut i: usize = 0;
        while i < strings.len()
            invariant
                i <= strings.len(),
                words_view(words@) == strings_view(strings@.take(i as int)),
            decreases strings.len() - i,
        {
            words.push(to_chars(&strings[i]));
            assert(strings_view(strings@.take(i + 1)) =~= strings_view(
                strings@.take(i as int),
            ).push(strings@[i as int]@));
            assert(words_view(words@) =~= words_view(words@.drop_last()).push(words@.last()@));
            i = i + 1;
        }
        assert(strings@.take(strings@.len() as int) == strings@);
        map = map.extended(lang, words);
        t = t + 1;
    }
    map
}

/// The keyword hints: the built-in lists, then each `lang=word` entry in order
/// (the word trimmed, empty words ignored). The first entry without `=` is
/// refused with `keyword expects lang=word`; the first with an unknown language
/// with `unknown lang: <name>`.
pub fn load_keywords(entries: &[String]) -> (r: Result<KeywordMap, KeywordError>)
    ensures
        match r {
            Ok(m) => apply_entries(built_in_keyword_map(), strings_view(entries@)) == Ok::<
                Map<Lang, Seq<Seq<char>>>,
                Seq<char>,
            >(m@),
            Err(e) => apply_entries(built_in_keyword_map(), strings_view(entries@)) == Err::<
                Map<Lang, Seq<Seq<char>>>,
                Seq<char>,
            >(e.message@),
        },
{
    let mut map = KeywordMap::new();
    map = add_built_in(map, korean::built_in_keywords());
    map = add_built_in(map, chinese::built_in_keywords());
    assert(map@ =~= built_in_keyword_map());
    let ghost all = strings_view(entries@);
    assert(all.skip(0) == all);
    let mut i: usize = 0;
    while i < entries.len()
        invariant
            i <= entries.len(),
            all == strings_view(entries@),
            apply_entries(built_in_keyword_map(), all) == apply_entries(map@, all.skip(i as int)),
        decreases entries.len() - i,
    {
        let entry = chars_of(entries[i].as_str());
        let ghost rest = all.skip(i as int);
        assert(rest[0] == entry@);
        assert(rest.drop_first() == all.skip(i + 1));
        let mut k: usize = 0;
        while k < entry.len() && entry[k] != '='
            invariant
                k <= entry.len(),
                forall|j: int| 0 <= j < k ==> entry@[j] != '=',
            decreases entry.len() - k,
        {
            k = k + 1;
        }
        proof {
            lemma_find_char(entry@, '=', k as int);
        }
        if k == entry.len() {
            let message = "keyword expects lang=word".to_owned();
            return Err(KeywordError { message });
        }
        let mut name = String::new();
        let mut j: usize = 0;
        while j < k
            invariant
                j <= k,
                k < entry.len(),
                name@ == entry@.take(j as int),
            decreases k - j,
        {
            push_char(&mut name, entry[j]);
            assert(entry@.take(j + 1) == entry@.take(j as int).push(entry@[j as int]));
            j = j + 1;
        }
        let lang = match parse_lang(name.as_str()) {
            Ok(lang) => lang,
            Err(message) => {
                return Err(KeywordError { message });
            },
        };
        let mut tail: Vec<char> = Vec::new();
        let mut j: usize = k + 1;
        while j < entry.len()
            invariant
                k + 1 <= j <= entry.len(),
                tail@ == entry@.subrange(k + 1, j as int),
            decreases entry.len() - j,
        {
            tail.push(entry[j]);
            assert(entry@.subrange(k + 1, j + 1) == entry@.subrange(k + 1, j as int).push(
                entry@[j as int],
            ));
            j = j + 1;
        }
        assert(tail@ == entry@.skip(k + 1));
        let word = trim_chars(&tail);
        if word.len() > 0 {
            let ghost w = word@;
            let mut one: Vec<Vec<char>> = Vec::new();
            one.push(word);
            assert(words_view(one@) =~= seq![w]);
            map = map.extended(lang, one);
        }
        i = i + 1;
    }
    assert(all.skip(entries.len() as int) =~= Seq::<Seq<char>>::empty());
    Ok(map)
}

/// The entry that a line of a keyword file gives: the trimmed line, unless it
/// is empty or a comment (starts with `#`).
pub open spec fn file_entry(line: Seq<char>) -> Option<Seq<char>> {
    let t = trim(line);
    if t.len() == 0 || t[0] == '#' {
        None
    } else {
        Some(t)
    }
}

/// The entries of the lines of a keyword file, in order.
pub open spec fn file_entries(lines: Seq<Seq<char>>) -> Seq<Seq<char>>
    decreases lines.len(),
{
    if lines.len() == 0 {
        Seq::empty()
    } else {
        file_entries(lines.drop_last()) + match file_entry(lines.last()) {
            Some(e) => seq![e],
            None => Seq::empty(),
        }
    }
}

/// The `lang=word` entries of a keyword file: one per line that is neither
/// empty nor a comment, trimmed.
pub fn keyword_file_entries(text: &str) -> (entries: Vec<String>)
    ensures
        strings_view(entries@) == file_entries(crate::scanner::raw_lines(text@)),
{
    let t = chars_of(text);
    let n = t.len();
    let mut entries: Vec<String> = Vec::new();
    let ghost mut done: Seq<Seq<char>> = Seq::empty();
    let mut start: usize = 0;
    assert(t@.skip(0) == t@);
    while start < n
        invariant
            n == t@.len(),
            start <= n,
            crate::scanner::raw_lines(t@) == done + crate::scanner::raw_lines(t@.skip(start as int)),
            strings_view(entries@) == file_entries(done),
        decreases n - start,
    {
        let mut end: usize = start;
        while end < n && t[end] != '\n'
            invariant
                start <= end <= n,
                n == t@.len(),
                forall|j: int| start <= j < end ==> t@[j] != '\n',
            decreases n - end,
        {
            end = end + 1;
        }
        let line_end = if end < n {
            end + 1
        } else {
            n
        };
        let ghost rest = t@.skip(start as int);
        proof {
            crate::scanner::lemma_first_line_len(rest, end - start);
            assert(rest.take(line_end - start) == t@.subrange(start as int, line_end as int));
            assert(rest.skip(line_end - start) == t@.skip(line_end as int));
        }
        let ghost raw = t@.subrange(start as int, line_end as int);
        let mut line: Vec<char> = Vec::new();
        let mut j: usize = start;
        while j < line_end
            invariant
                start <= j <= line_end,
                line_end <= n,
                n == t@.len(),
                line@ == t@.subrange(start as int, j as int),
            decreases line_end - j,
        {
            line.push(t[j]);
            assert(t@.subrange(start as int, j + 1) == t@.subrange(start as int, j as int).push(
                t@[j as int],
            ));
            j = j + 1;
        }
        let trimmed = trim_chars(&line);
        let ghost before = entries@;
        if trimmed.len() > 0 && trimmed[0] != '#' {
            let entry = crate::text::string_from_chars(&trimmed);
            entries.push(entry);
        }
        proof {
            let done2 = done.push(raw);
            assert(done2.drop_last() == done);
            assert(done2.last() == raw);
            assert(crate::scanner::raw_lines(t@) == done2 + crate::scanner::raw_lines(t@.skip(line_end as int))) by {
                assert(crate::scanner::raw_lines(rest) == seq![raw] + crate::scanner::raw_lines(t@.skip(line_end as int)));
                assert(done + (seq![raw] + crate::scanner::raw_lines(t@.skip(line_end as int))) =~= done2
                    + crate::scanner::raw_lines(t@.skip(line_end as int)));
            }
            assert(strings_view(entries@) =~= file_entries(done2));
            done = done2;
        }
        start = line_end;
    }
    assert(t@.skip(n as int) =~= Seq::<char>::empty());
    assert(done + Seq::<Seq<char>>::empty() =~= done);
    entries
}

/// `a` is a prefix of `b`.
pub open spec fn is_prefix(a: Seq<Seq<char>>, b: Seq<Seq<char>>) -> bool {
    a.len() <= b.len() && b.take(a.len() as int) == a
}

proof fn lemma_apply_entries_extends(m: Map<Lang, Seq<Seq<char>>>, entries: Seq<Seq<char>>)
    ensures
        apply_entries(m, entries) matches Ok(m2) ==> forall|l: Lang| #[trigger] m.dom().contains(l) ==> m2.dom().contains(l) && is_prefix(m[l], m2[l]),
    decreases entries.len(),
{
    if entries.len() == 0 {
        assert forall|l: Lang| #[trigger] m.dom().contains(l) implies m.dom().contains(l) && is_prefix(m[l], m[l]) by {
            assert(m[l].take(m[l].len() as int) =~= m[l]);
        }
    } else {
        match apply_entry(m, entries[0]) {
            Err(_) => {},
            Ok(m1) => {
                lemma_apply_entries_extends(m1, entries.drop_first());
                assert forall|l: Lang| #[trigger] m.dom().contains(l) implies m1.dom().contains(l) && is_prefix(m[l], m1[l]) by {
                    assert(m[l].take(m[l].len() as int) =~= m[l]);
                    if m1 != m {
                        let k = find_char(entries[0], '=');
                        let lang = spec_parse_lang(entries[0].take(k as int))->Ok_0;
                        let word = trim(entries[0].skip(k + 1 as int));
                        assert(m1 == with_words(m, lang, seq![word]));
                        if l == lang {
                            assert((m[l] + seq![word]).take(m[l].len() as int) =~= m[l]);
                        }
                    }
                }
                if apply_entries(m, entries) is Ok {
                    let m2 = apply_entries(m, entries)->Ok_0;
                    assert forall|l: Lang| #[trigger] m.dom().contains(l) implies m2.dom().contains(l) && is_prefix(m[l], m2[l]) by {
                        assert(m1.dom().contains(l));
                        assert(m2[l].take(m1[l].len() as int).take(m[l].len() as int) =~= m2[l].take(m[l].len() as int));
                    }
                }
            },
        }
    }
}

/// Loading keywords keeps the built-in hints: every language with a built-in
/// list still has its list, followed by whatever the entries add.
pub proof fn lemma_built_in_keywords_kept(entries: Seq<Seq<char>>)
    ensures
        apply_entries(built_in_keyword_map(), entries) matches Ok(m) ==> forall|l: Lang| #[trigger] built_in_keyword_map().dom().contains(l) ==> m.dom().contains(l) && is_prefix(built_in_keyword_map()[l], m[l]),
{
    lemma_apply_entries_extends(built_in_keyword_map(), entries);
}

/// A `lang=word` entry whose language name holds no `=`: the entry splits at
/// its first `=` into that name and the word.
proof fn lemma_entry_split(name: Seq<char>, word: Seq<char>)
    requires
        !name.contains('='),
    ensures
        find_char(name + seq!['='] + word, '=') == name.len(),
        (name + seq!['='] + word).take(name.len() as int) == name,
        (name + seq!['='] + word).skip(name.len() + 1 as int) == word,
{
    let e = name + seq!['='] + word;
    assert forall|j: int| 0 <= j < name.len() implies e[j] != '=' by {
        assert(e[j] == name[j]);
        if e[j] == '=' {
            assert(name.contains('='));
        }
    }
    assert(e[name.len() as int] == '=');
    lemma_find_char(e, '=', name.len() as int);
    assert(e.take(name.len() as int) =~= name);
    assert(e.skip(name.len() + 1 as int) =~= word);
}

/// A keyword entry keeps its word as written: when the entries load, and entry
/// `i` reads `name=word` with a known language name (holding no `=`) and a
/// word that is not blank, the loaded list of that language holds the word,
/// trimmed but otherwise unchanged, so a line in which it occurs is a keyword
/// hit for the language.
pub proof fn lemma_entry_word_kept(
    m: Map<Lang, Seq<Seq<char>>>,
    entries: Seq<Seq<char>>,
    i: int,
    name: Seq<char>,
    word: Seq<char>,
    line: Seq<char>,
)
    requires
        0 <= i < entries.len(),
        entries[i] == name + seq!['='] + word,
        !name.contains('='),
        spec_parse_lang(name) is Ok,
        trim(word).len() > 0,
        apply_entries(m, entries) is Ok,
    ensures
        ({
            let lang = spec_parse_lang(name)->Ok_0;
            let loaded = apply_entries(m, entries)->Ok_0;
            &&& loaded.dom().contains(lang)
            &&& loaded[lang].contains(trim(word))
            &&& crate::text::occurs_in(line, trim(word)) ==> crate::scanner::detect::keyword_hit(loaded, lang, line)
        }),
    decreases i,
{
    let lang = spec_parse_lang(name)->Ok_0;
    let m1 = apply_entry(m, entries[0])->Ok_0;
    assert(apply_entry(m, entries[0]) is Ok);
    if i == 0 {
        lemma_entry_split(name, word);
        let w = trim(word);
        assert(m1 == with_words(m, lang, seq![w]));
        let list = words_of(m, lang) + seq![w];
        assert(m1[lang] == list);
        lemma_apply_entries_extends(m1, entries.drop_first());
        let loaded = apply_entries(m, entries)->Ok_0;
        assert(loaded == apply_entries(m1, entries.drop_first())->Ok_0);
        assert(is_prefix(list, loaded[lang]));
        assert(loaded[lang][list.len() - 1] == list[list.len() - 1]);
        assert(loaded[lang].contains(w));
        if crate::text::occurs_in(line, w) {
            let k = choose|k: int| 0 <= k < loaded[lang].len() && loaded[lang][k] == w;
            assert(crate::text::occurs_in(line, loaded[lang][k]));
        }
    } else {
        assert(entries.drop_first()[i - 1] == entries[i]);
        lemma_entry_word_kept(m1, entries.drop_first(), i - 1, name, word, line);
    }
}

} // verus!
