//! Summaries of scan results: line numbers per label, unmatched line numbers,
//! counts per label, and the per-file records that the serialized output formats write.
use vstd::prelude::*;

use crate::lang::{
    self, lang_label, lang_of_rank, lex_lt, spec_label_rank, spec_lang_label, spec_lang_of_rank, Lang,
    LANG_COUNT,
};
use crate::scanner::detect::occurrences;
use crate::scanner::{hits_view, LineHit, LineHitView};
use crate::lang::keywords::strings_view;
use crate::text::{
    chars_of, decimal, decimal_chars, pad_left, pad_right, push_chars, push_spaces, push_str,
    spaces,
};

verus! {

/// The output formats.
#[derive(Clone, Copy, Debug, PartialEq, Eq, Structural)]
pub enum OutputFormat {
    Text,
    Json,
    JsonLines,
    Yaml,
}

/// The line numbers at which `lang` was reported, once per occurrence of the
/// label on the line, in the order of `hits`.
pub open spec fn label_lines(hits: Seq<LineHitView>, lang: Lang) -> Seq<nat>
    decreases hits.len(),
{
    if hits.len() == 0 {
        Seq::empty()
    } else {
        label_lines(hits.drop_last(), lang) + Seq::new(
            occurrences(hits.last().labels, lang),
            |k: int| hits.last().line_no,
        )
    }
}

/// For the labels of alphabetical position below `r` that were reported at
/// least once, in alphabetical order: the label and its line numbers.
pub open spec fn hits_summary_upto(hits: Seq<LineHitView>, r: nat) -> Seq<(Seq<char>, Seq<nat>)>
    decreases r,
{
    if r == 0 {
        Seq::empty()
    } else {
        let lang = spec_lang_of_rank(r - 1);
        let lines = label_lines(hits, lang);
        hits_summary_upto(hits, (r - 1) as nat) + if lines.len() > 0 {
            seq![(spec_lang_label(lang), lines)]
        } else {
            Seq::empty()
        }
    }
}

/// For every label reported at least once, in alphabetical order: the label
/// and the line numbers at which it was reported.
pub open spec fn hits_summary(hits: Seq<LineHitView>) -> Seq<(Seq<char>, Seq<nat>)> {
    hits_summary_upto(hits, LANG_COUNT as nat)
}

/// For the labels of alphabetical position below `r` that were reported at
/// least once, in alphabetical order: the label and how often it was reported.
pub open spec fn label_counts_upto(hits: Seq<LineHitView>, r: nat) -> Seq<(Seq<char>, nat)>
    decreases r,
{
    if r == 0 {
        Seq::empty()
    } else {
        let lang = spec_lang_of_rank(r - 1);
        let lines = label_lines(hits, lang);
        label_counts_upto(hits, (r - 1) as nat) + if lines.len() > 0 {
            seq![(spec_lang_label(lang), lines.len())]
        } else {
            Seq::empty()
        }
    }
}

/// For every label reported at least once, in alphabetical order: the label
/// and how often it was reported.
pub open spec fn label_counts(hits: Seq<LineHitView>) -> Seq<(Seq<char>, nat)> {
    label_counts_upto(hits, LANG_COUNT as nat)
}

/// The line numbers of the hits without labels, in order.
pub open spec fn miss_lines(hits: Seq<LineHitView>) -> Seq<nat>
    decreases hits.len(),
{
    if hits.len() == 0 {
        Seq::empty()
    } else {
        miss_lines(hits.drop_last()) + if hits.last().labels.len() == 0 {
            seq![hits.last().line_no]
        } else {
            Seq::empty()
        }
    }
}

/// Line numbers as natural numbers.
pub open spec fn numbers_view(v: Seq<usize>) -> Seq<nat> {
    v.map_values(|x: usize| x as nat)
}

/// The contents of a list of per-label line numbers.
pub open spec fn summary_view(v: Seq<(String, Vec<usize>)>) -> Seq<(Seq<char>, Seq<nat>)> {
    v.map_values(|e: (String, Vec<usize>)| (e.0@, numbers_view(e.1@)))
}

/// The contents of a list of per-label counts.
pub open spec fn counts_view(v: Seq<(String, usize)>) -> Seq<(Seq<char>, nat)> {
    v.map_values(|e: (String, usize)| (e.0@, e.1 as nat))
}

/// The line numbers at which `lang` was reported, once per occurrence.
fn lines_of_label(lines: &[LineHit], lang: Lang) -> (nums: Vec<usize>)
    ensures
        numbers_view(nums@) == label_lines(hits_view(lines@), lang),
{
    let mut nums: Vec<usize> = Vec::new();
    let mut i: usize = 0;
    while i < lines.len()
        invariant
            i <= lines.len(),
            numbers_view(nums@) == label_lines(hits_view(lines@.take(i as int)), lang),
        decreases lines.len() - i,
    {
        let hit = &lines[i];
        let ghost before = nums@;
        let mut k: usize = 0;
        while k < hit.labels.len()
            invariant
                k <= hit.labels.len(),
                numbers_view(nums@) == numbers_view(before) + Seq::new(
                    occurrences(hit.labels@.take(k as int), lang),
                    |j: int| hit.line_no as nat,
                ),
            decreases hit.labels.len() - k,
        {
            assert(hit.labels@.take(k + 1).drop_last() == hit.labels@.take(k as int));
            assert(hit.labels@.take(k + 1).last() == hit.labels@[k as int]);
            let ghost prev = nums@;
            if hit.labels[k] == lang {
                nums.push(hit.line_no);
            }
            proof {
                let m = occurrences(hit.labels@.take(k as int), lang);
                let m2 = occurrences(hit.labels@.take(k + 1), lang);
                let f = |j: int| hit.line_no as nat;
                if hit.labels@[k as int] == lang {
                    assert(m2 == m + 1);
                    assert(numbers_view(nums@) =~= numbers_view(prev).push(hit.line_no as nat));
                    assert(Seq::new(m2, f) =~= Seq::new(m, f).push(hit.line_no as nat));
                } else {
                    assert(m2 == m);
                    assert(numbers_view(nums@) =~= numbers_view(prev));
                }
                assert(numbers_view(nums@) =~= numbers_view(before) + Seq::new(m2, f));
            }
            k = k + 1;
        }
        assert(hit.labels@.take(hit.labels@.len() as int) == hit.labels@);
        assert(hits_view(lines@.take(i + 1)).drop_last() == hits_view(lines@.take(i as int)));
        assert(hits_view(lines@.take(i + 1)).last() == lines@[i as int]@);
        i = i + 1;
    }
    assert(lines@.take(lines@.len() as int) == lines@);
    nums
}

/// For every label that occurs in `lines`, in alphabetical order: the label and
/// the line numbers at which it occurs (once per occurrence).
pub fn summarize_hits(lines: &[LineHit]) -> (out: Vec<(String, Vec<usize>)>)
    ensures
        summary_view(out@) == hits_summary(hits_view(lines@)),
{
    let ghost hv = hits_view(lines@);
    let mut out: Vec<(String, Vec<usize>)> = Vec::new();
    let mut r: usize = 0;
    while r < LANG_COUNT
        invariant
            r <= LANG_COUNT,
            hv == hits_view(lines@),
            summary_view(out@) == hits_summary_upto(hv, r as nat),
        decreases LANG_COUNT - r,
    {
        let lang = lang_of_rank(r);
        let nums = lines_of_label(lines, lang);
        if nums.len() > 0 {
            let label = lang_label(lang).to_owned();
            out.push((label, nums));
        }
        assert(summary_view(out@) =~= hits_summary_upto(hv, (r + 1) as nat));
        r = r + 1;
    }
    out
}

/// The line numbers of the lines of `lines` that carry no label, in order.
pub fn summarize_misses(lines: &[LineHit]) -> (out: Vec<usize>)
    ensures
        numbers_view(out@) == miss_lines(hits_view(lines@)),
{
    let mut out: Vec<usize> = Vec::new();
    let mut i: usize = 0;
    while i < lines.len()
        invariant
            i <= lines.len(),
            numbers_view(out@) == miss_lines(hits_view(lines@.take(i as int))),
        decreases lines.len() - i,
    {
        if lines[i].labels.len() == 0 {
            out.push(lines[i].line_no);
        }
        assert(hits_view(lines@.take(i + 1)).drop_last() == hits_view(lines@.take(i as int)));
        assert(hits_view(lines@.take(i + 1)).last() == lines@[i as int]@);
        assert(numbers_view(out@) =~= miss_lines(hits_view(lines@.take(i + 1))));
        i = i + 1;
    }
    assert(lines@.take(lines@.len() as int) == lines@);
    out
}

/// For every label that occurs in `lines`, in alphabetical order: the label and
/// how often it occurs.
pub fn count_by_lang(lines: &[LineHit]) -> (out: Vec<(String, usize)>)
    ensures
        counts_view(out@) == label_counts(hits_view(lines@)),
{
    let ghost hv = hits_view(lines@);
    let mut out: Vec<(String, usize)> = Vec::new();
    let mut r: usize = 0;
    while r < LANG_COUNT
        invariant
            r <= LANG_COUNT,
            hv == hits_view(lines@),
            counts_view(out@) == label_counts_upto(hv, r as nat),
        decreases LANG_COUNT - r,
    {
        let lang = lang_of_rank(r);
        let nums = lines_of_label(lines, lang);
        if nums.len() > 0 {
            let label = lang_label(lang).to_owned();
            out.push((label, nums.len()));
        }
        assert(counts_view(out@) =~= label_counts_upto(hv, (r + 1) as nat));
        r = r + 1;
    }
    out
}

/// The labels of `labels` joined with commas.
pub open spec fn joined_labels(labels: Seq<Lang>) -> Seq<char>
    decreases labels.len(),
{
    if labels.len() == 0 {
        Seq::empty()
    } else if labels.len() == 1 {
        spec_lang_label(labels[0])
    } else {
        joined_labels(labels.drop_last()) + ","@ + spec_lang_label(labels.last())
    }
}

/// The name shown for an optional file: the file, or `-`.
pub open spec fn shown_name(file: Option<Seq<char>>) -> Seq<char> {
    match file {
        Some(f) => f,
        None => "-"@,
    }
}

/// The text-format line for `hit`: `[L<n>:<labels>] <highlighted>`, with
/// `<file>:` after the bracket when files are shown, and without the labels when
/// the scan reported unmatched lines.
pub open spec fn spec_text_line(file: Option<Seq<char>>, hit: LineHitView, show_file: bool, invert_match: bool) -> Seq<char> {
    let place = if show_file {
        shown_name(file) + ":L"@ + decimal(hit.line_no)
    } else {
        "L"@ + decimal(hit.line_no)
    };
    let tag = if invert_match {
        place
    } else {
        place + ":"@ + joined_labels(hit.labels)
    };
    "["@ + tag + "] "@ + hit.highlighted
}

/// The contents of an optional string slice.
pub open spec fn opt_str_view(file: Option<&str>) -> Option<Seq<char>> {
    match file {
        Some(f) => Some(f@),
        None => None,
    }
}

/// The labels of `labels` joined with commas.
pub fn join_labels(labels: &[Lang]) -> (out: String)
    ensures
        out@ == joined_labels(labels@),
{
    let mut out = String::new();
    let mut i: usize = 0;
    while i < labels.len()
        invariant
            i <= labels.len(),
            out@ == joined_labels(labels@.take(i as int)),
        decreases labels.len() - i,
    {
        assert(labels@.take(i + 1).drop_last() == labels@.take(i as int));
        assert(labels@.take(i + 1).last() == labels@[i as int]);
        if i > 0 {
            push_str(&mut out, ",");
        }
        push_str(&mut out, lang_label(labels[i]));
        proof {
            if i == 0 {
                assert(labels@.take(1) =~= seq![labels@[0]]);
            }
        }
        assert(out@ =~= joined_labels(labels@.take(i + 1)));
        i = i + 1;
    }
    assert(labels@.take(labels@.len() as int) == labels@);
    out
}

/// The line that the text format prints for `hit`.
pub fn text_line(file: Option<&str>, hit: &LineHit, show_file: bool, invert_match: bool) -> (out: String)
    ensures
        out@ == spec_text_line(opt_str_view(file), hit@, show_file, invert_match),
{
    let mut out = String::new();
    push_str(&mut out, "[");
    if show_file {
        match file {
            Some(f) => push_str(&mut out, f),
            None => push_str(&mut out, "-"),
        }
        push_str(&mut out, ":L");
    } else {
        push_str(&mut out, "L");
    }
    let n = decimal_chars(hit.line_no);
    push_chars(&mut out, n.as_slice());
    if !invert_match {
        push_str(&mut out, ":");
        let labels = join_labels(hit.labels.as_slice());
        push_str(&mut out, labels.as_str());
    }
    push_str(&mut out, "] ");
    push_str(&mut out, hit.highlighted.as_str());
    assert(out@ =~= spec_text_line(opt_str_view(file), hit@, show_file, invert_match));
    out
}

/// The contents of a per-file record.
pub struct FileResultView {
    pub file: Option<Seq<char>>,
    pub hits: Seq<(Seq<char>, Seq<nat>)>,
    pub misses: Seq<nat>,
}

/// The per-file record of the JSON format: the file, the line numbers per label
/// and the line numbers without labels.
#[derive(Debug)]
pub struct JsonFileResult {
    pub file: Option<String>,
    pub hits: Vec<(String, Vec<usize>)>,
    pub misses: Vec<usize>,
}

/// The per-file record of the YAML format, with the fields of the JSON record.
#[derive(Debug)]
pub struct YamlFileResult {
    pub file: Option<String>,
    pub hits: Vec<(String, Vec<usize>)>,
    pub misses: Vec<usize>,
}

/// The contents of an optional string.
pub open spec fn opt_string_view(file: Option<String>) -> Option<Seq<char>> {
    match file {
        Some(f) => Some(f@),
        None => None,
    }
}

impl View for JsonFileResult {
    type V = FileResultView;

    open spec fn view(&self) -> FileResultView {
        FileResultView {
            file: opt_string_view(self.file),
            hits: summary_view(self.hits@),
            misses: numbers_view(self.misses@),
        }
    }
}

impl View for YamlFileResult {
    type V = FileResultView;

    open spec fn view(&self) -> FileResultView {
        FileResultView {
            file: opt_string_view(self.file),
            hits: summary_view(self.hits@),
            misses: numbers_view(self.misses@),
        }
    }
}

/// The record for `file` whose scan gave `hits`.
pub open spec fn file_result_of(file: Option<Seq<char>>, hits: Seq<LineHitView>) -> FileResultView {
    FileResultView { file, hits: hits_summary(hits), misses: miss_lines(hits) }
}

fn owned_name(file: Option<&str>) -> (r: Option<String>)
    ensures
        opt_string_view(r) == opt_str_view(file),
{
    match file {
        Some(f) => Some(f.to_owned()),
        None => None,
    }
}

/// The JSON record for `file` whose scan gave `lines`.
pub fn json_file_result(file: Option<&str>, lines: &[LineHit]) -> (r: JsonFileResult)
    ensures
        r@ == file_result_of(opt_str_view(file), hits_view(lines@)),
{
    JsonFileResult {
        file: owned_name(file),
        hits: summarize_hits(lines),
        misses: summarize_misses(lines),
    }
}

/// The YAML record for `file` whose scan gave `lines`.
pub fn yaml_file_result(file: Option<&str>, lines: &[LineHit]) -> (r: YamlFileResult)
    ensures
        r@ == file_result_of(opt_str_view(file), hits_view(lines@)),
{
    YamlFileResult {
        file: owned_name(file),
        hits: summarize_hits(lines),
        misses: summarize_misses(lines),
    }
}

/// Adds the record of `file` to the records of its format: JSON and YAML
/// collect one record per file; the other formats collect nothing.
pub fn collect_serialized_file_results(
    format: OutputFormat,
    file: &str,
    lines: &[LineHit],
    json_out: &mut Vec<JsonFileResult>,
    yaml_out: &mut Vec<YamlFileResult>,
)
    ensures
        format == OutputFormat::Json ==> {
            &&& final(json_out)@.len() == old(json_out)@.len() + 1
            &&& final(json_out)@.drop_last() == old(json_out)@
            &&& final(json_out)@.last()@ == file_result_of(Some(file@), hits_view(lines@))
        },
        format != OutputFormat::Json ==> final(json_out)@ == old(json_out)@,
        format == OutputFormat::Yaml ==> {
            &&& final(yaml_out)@.len() == old(yaml_out)@.len() + 1
            &&& final(yaml_out)@.drop_last() == old(yaml_out)@
            &&& final(yaml_out)@.last()@ == file_result_of(Some(file@), hits_view(lines@))
        },
        format != OutputFormat::Yaml ==> final(yaml_out)@ == old(yaml_out)@,
{
    match format {
        OutputFormat::Json => {
            json_out.push(json_file_result(Some(file), lines));
            assert(json_out@.drop_last() =~= old(json_out)@);
        },
        OutputFormat::Yaml => {
            yaml_out.push(yaml_file_result(Some(file), lines));
            assert(yaml_out@.drop_last() =~= old(yaml_out)@);
        },
        OutputFormat::Text | OutputFormat::JsonLines => {},
    }
}

/// The contents of a JSON Lines record.
pub struct JsonLineView {
    pub file: Option<Seq<char>>,
    pub line: nat,
    pub content: Seq<char>,
    pub labels: Seq<Seq<char>>,
}

/// The record that the JSON Lines format writes for one line: the file, the
/// line number, the line and its labels.
#[derive(Debug)]
pub struct JsonLineResult {
    pub file: Option<String>,
    pub line: usize,
    pub content: String,
    pub labels: Vec<String>,
}

impl View for JsonLineResult {
    type V = JsonLineView;

    open spec fn view(&self) -> JsonLineView {
        JsonLineView {
            file: opt_string_view(self.file),
            line: self.line as nat,
            content: self.content@,
            labels: strings_view(self.labels@),
        }
    }
}

/// The JSON Lines record for `hit` in `file`.
pub open spec fn json_line_of(file: Option<Seq<char>>, hit: LineHitView) -> JsonLineView {
    JsonLineView {
        file,
        line: hit.line_no,
        content: hit.original,
        labels: labels_view(hit.labels),
    }
}

/// The labels of a sequence of languages.
pub open spec fn labels_view(labels: Seq<Lang>) -> Seq<Seq<char>> {
    labels.map_values(|l: Lang| spec_lang_label(l))
}

/// The label strings of `labels`.
fn label_strings(labels: &[Lang]) -> (r: Vec<String>)
    ensures
        strings_view(r@) == labels_view(labels@),
{
    let mut r: Vec<String> = Vec::new();
    let mut i: usize = 0;
    while i < labels.len()
        invariant
            i <= labels.len(),
            strings_view(r@) == labels_view(labels@.take(i as int)),
        decreases labels.len() - i,
    {
        let label = lang_label(labels[i]).to_owned();
        let ghost prev = r@;
        r.push(label);
        assert(strings_view(r@) =~= strings_view(prev).push(label@));
        assert(labels_view(labels@.take(i + 1)) =~= labels_view(labels@.take(i as int)).push(
            spec_lang_label(labels@[i as int]),
        ));
        i = i + 1;
    }
    assert(labels@.take(labels@.len() as int) == labels@);
    r
}

/// The JSON Lines records of `lines` in `file`, one per line, in order.
pub fn json_line_results(file: Option<&str>, lines: &[LineHit]) -> (r: Vec<JsonLineResult>)
    ensures
        r@.len() == lines@.len(),
        forall|i: int| 0 <= i < lines@.len() ==> #[trigger] r@[i]@ == json_line_of(opt_str_view(file), lines@[i]@),
{
    let mut r: Vec<JsonLineResult> = Vec::new();
    let mut i: usize = 0;
    while i < lines.len()
        invariant
            i <= lines.len(),
            r@.len() == i,
            forall|j: int| 0 <= j < i ==> #[trigger] r@[j]@ == json_line_of(opt_str_view(file), lines@[j]@),
        decreases lines.len() - i,
    {
        let hit = &lines[i];
        let content = hit.original.clone();
        r.push(JsonLineResult {
            file: owned_name(file),
            line: hit.line_no,
            content,
            labels: label_strings(hit.labels.as_slice()),
        });
        i = i + 1;
    }
    r
}

/// The position of the first entry with the largest count.
pub open spec fn first_max_index(s: Seq<(Seq<char>, nat)>) -> int
    decreases s.len(),
{
    if s.len() <= 1 {
        0
    } else {
        let m = first_max_index(s.drop_last());
        if s.last().1 > s[m].1 {
            s.len() - 1
        } else {
            m
        }
    }
}

/// The entries sorted by count, largest first; equal counts keep their order.
pub open spec fn by_count_desc(s: Seq<(Seq<char>, nat)>) -> Seq<(Seq<char>, nat)>
    decreases s.len(),
{
    if s.len() == 0 {
        Seq::empty()
    } else {
        let k = first_max_index(s);
        proof {
            lemma_first_max_index(s);
        }
        seq![s[k]] + by_count_desc(s.remove(k))
    }
}

/// The sum of the counts.
pub open spec fn total_count(s: Seq<(Seq<char>, nat)>) -> nat
    decreases s.len(),
{
    if s.len() == 0 {
        0
    } else {
        total_count(s.drop_last()) + s.last().1
    }
}

/// The length of the longest label, at least `floor`.
pub open spec fn label_width(s: Seq<(Seq<char>, nat)>, floor: nat) -> nat
    decreases s.len(),
{
    if s.len() == 0 {
        floor
    } else {
        let w = label_width(s.drop_last(), floor);
        if s.last().0.len() > w {
            s.last().0.len()
        } else {
            w
        }
    }
}

/// The border line of a count table whose label column is `width` wide.
pub open spec fn table_border(width: nat) -> Seq<char> {
    "+-"@ + Seq::new(width, |i: int| '-') + "-+------+"@
}

/// A row of a count table whose label column is `width` wide.
pub open spec fn table_row(label: Seq<char>, count: Seq<char>, width: nat) -> Seq<char> {
    "| "@ + pad_right(label, width) + " | "@ + pad_left(count, 4) + " |"@
}

/// The rows of the entries of a count table.
pub open spec fn table_rows(s: Seq<(Seq<char>, nat)>, width: nat) -> Seq<Seq<char>> {
    s.map_values(|e: (Seq<char>, nat)| table_row(e.0, decimal(e.1), width))
}

/// The count table of `counts`: a bordered header, one row per label with the
/// largest counts first, and a total row; no table when there are no counts.
/// The label column is as wide as the longest label and at least 8.
pub open spec fn spec_counts_table(counts: Seq<(Seq<char>, nat)>) -> Seq<Seq<char>> {
    if counts.len() == 0 {
        Seq::empty()
    } else {
        let width = label_width(counts, 8);
        let border = table_border(width);
        seq![border, table_row("LANG"@, "COUNT"@, width), border] + table_rows(
            by_count_desc(counts),
            width,
        ) + seq![border, table_row("TOTAL"@, decimal(total_count(counts)), width), border]
    }
}

/// Ordering by count keeps every entry.
pub proof fn lemma_by_count_len(s: Seq<(Seq<char>, nat)>)
    ensures
        by_count_desc(s).len() == s.len(),
    decreases s.len(),
{
    if s.len() > 0 {
        lemma_first_max_index(s);
        lemma_by_count_len(s.remove(first_max_index(s)));
    }
}

/// `first_max_index` points at the first entry whose count no entry exceeds:
/// every entry before it has a smaller count.
pub proof fn lemma_first_max_index(s: Seq<(Seq<char>, nat)>)
    ensures
        s.len() > 0 ==> 0 <= first_max_index(s) < s.len(),
        forall|j: int| 0 <= j < s.len() ==> #[trigger] s[j].1 <= s[first_max_index(s)].1,
        forall|j: int| 0 <= j < first_max_index(s) ==> #[trigger] s[j].1 < s[first_max_index(s)].1,
    decreases s.len(),
{
    if s.len() > 1 {
        lemma_first_max_index(s.drop_last());
        let m = first_max_index(s.drop_last());
        assert forall|j: int| 0 <= j < s.len() implies #[trigger] s[j].1 <= s[first_max_index(s)].1 by {
            if j < s.len() - 1 {
                assert(s.drop_last()[j] == s[j]);
            }
        }
        assert forall|j: int| 0 <= j < first_max_index(s) implies #[trigger] s[j].1 < s[first_max_index(s)].1 by {
            assert(s.drop_last()[j] == s[j]);
            if first_max_index(s) == m {
                assert(s.drop_last()[m] == s[m]);
            } else {
                assert(s.drop_last()[m] == s[m]);
            }
        }
    }
}

/// The entries whose count is `c`.
pub open spec fn with_count(c: nat) -> spec_fn((Seq<char>, nat)) -> bool {
    |e: (Seq<char>, nat)| e.1 == c
}

proof fn lemma_filter_single(x: (Seq<char>, nat), p: spec_fn((Seq<char>, nat)) -> bool)
    ensures
        seq![x].filter(p) == if p(x) {
            seq![x]
        } else {
            Seq::<(Seq<char>, nat)>::empty()
        },
{
    reveal(Seq::filter);
    assert(seq![x].drop_last() =~= Seq::<(Seq<char>, nat)>::empty());
    assert(Seq::<(Seq<char>, nat)>::empty().filter(p) =~= Seq::<(Seq<char>, nat)>::empty());
}

/// Ordering by count sorts stably: the result holds the same entries as the
/// input, its counts never increase, and the entries of any one count keep
/// their input order.
pub proof fn lemma_by_count_desc_sorts(s: Seq<(Seq<char>, nat)>)
    ensures
        by_count_desc(s).to_multiset() == s.to_multiset(),
        forall|i: int, j: int| 0 <= i < j < by_count_desc(s).len() ==> #[trigger] by_count_desc(s)[i].1 >= #[trigger] by_count_desc(s)[j].1,
        forall|c: nat| #[trigger] by_count_desc(s).filter(with_count(c)) == s.filter(with_count(c)),
    decreases s.len(),
{
    broadcast use vstd::seq_lib::group_to_multiset_ensures, vstd::seq_lib::lemma_multiset_commutative, Seq::filter_distributes_over_add, vstd::multiset::group_multiset_axioms;
    let out = by_count_desc(s);
    if s.len() == 0 {
        assert(out =~= s);
    } else {
        let k = first_max_index(s);
        lemma_first_max_index(s);
        let t = s.remove(k);
        lemma_by_count_desc_sorts(t);
        let rec = by_count_desc(t);
        assert(out == seq![s[k]] + rec);
        assert(s.to_multiset().count(s[k]) > 0) by {
            assert(s.contains(s[k]));
        }
        assert(seq![s[k]].to_multiset() =~= vstd::multiset::Multiset::<(Seq<char>, nat)>::empty().insert(s[k])) by {
            assert(seq![s[k]] =~= Seq::<(Seq<char>, nat)>::empty().push(s[k]));
            assert(Seq::<(Seq<char>, nat)>::empty().to_multiset() =~= vstd::multiset::Multiset::<(Seq<char>, nat)>::empty()) by {
                assert(Seq::<(Seq<char>, nat)>::empty().to_multiset().len() == 0);
            }
        }
        assert(out.to_multiset() =~= s.to_multiset());
        assert forall|i: int, j: int| 0 <= i < j < out.len() implies #[trigger] out[i].1 >= #[trigger] out[j].1 by {
            assert(out[j] == rec[j - 1]);
            if i > 0 {
                assert(out[i] == rec[i - 1]);
            } else {
                let x = rec[j - 1];
                assert(rec.contains(x));
                assert(rec.to_multiset().count(x) > 0);
                assert(t.to_multiset().count(x) > 0);
                assert(t.contains(x));
                let q = choose|q: int| 0 <= q < t.len() && t[q] == x;
                if q < k {
                    assert(t[q] == s[q]);
                } else {
                    assert(t[q] == s[q + 1]);
                }
            }
        }
        assert(s == s.take(k) + seq![s[k]] + s.skip(k + 1));
        assert(t == s.take(k) + s.skip(k + 1));
        assert forall|c: nat| #[trigger] out.filter(with_count(c)) == s.filter(with_count(c)) by {
            let p = with_count(c);
            lemma_filter_single(s[k], p);
            if p(s[k]) {
                assert forall|j: int| 0 <= j < s.take(k).len() implies !p(#[trigger] s.take(k)[j]) by {
                    assert(s.take(k)[j] == s[j]);
                }
                s.take(k).lemma_all_neg_filter_empty(p);
                assert(s.take(k).filter(p) =~= Seq::<(Seq<char>, nat)>::empty());
                assert(Seq::<(Seq<char>, nat)>::empty() + s.skip(k + 1).filter(p) =~= s.skip(k + 1).filter(p));
                assert(Seq::<(Seq<char>, nat)>::empty() + seq![s[k]] =~= seq![s[k]]);
            } else {
                assert(s.take(k).filter(p) + Seq::<(Seq<char>, nat)>::empty() =~= s.take(k).filter(p));
                assert(Seq::<(Seq<char>, nat)>::empty() + rec.filter(p) =~= rec.filter(p));
            }
        }
    }
}

/// The entries of `counts` with the labels as characters.
fn count_entries(counts: &[(String, usize)]) -> (r: Vec<(Vec<char>, usize)>)
    ensures
        entries_view(r@) == counts_view(counts@),
{
    let mut r: Vec<(Vec<char>, usize)> = Vec::new();
    let mut i: usize = 0;
    while i < counts.len()
        invariant
            i <= counts.len(),
            entries_view(r@) == counts_view(counts@.take(i as int)),
        decreases counts.len() - i,
    {
        let label = chars_of(counts[i].0.as_str());
        let ghost prev = r@;
        r.push((label, counts[i].1));
        assert(entries_view(r@) =~= entries_view(prev).push((counts@[i as int].0@, counts@[i as int].1 as nat)));
        assert(counts_view(counts@.take(i + 1)) =~= counts_view(counts@.take(i as int)).push(
            (counts@[i as int].0@, counts@[i as int].1 as nat),
        ));
        i = i + 1;
    }
    assert(counts@.take(counts@.len() as int) == counts@);
    r
}

/// The contents of a list of label and count entries.
pub open spec fn entries_view(v: Seq<(Vec<char>, usize)>) -> Seq<(Seq<char>, nat)> {
    v.map_values(|e: (Vec<char>, usize)| (e.0@, e.1 as nat))
}

fn first_max(entries: &Vec<(Vec<char>, usize)>) -> (k: usize)
    requires
        entries@.len() > 0,
    ensures
        k == first_max_index(entries_view(entries@)),
        k < entries@.len(),
{
    let ghost ev = entries_view(entries@);
    let mut m: usize = 0;
    let mut i: usize = 1;
    assert(ev.take(1).drop_last().len() == 0);
    while i < entries.len()
        invariant
            1 <= i <= entries@.len(),
            m < i,
            ev == entries_view(entries@),
            m == first_max_index(ev.take(i as int)),
        decreases entries.len() - i,
    {
        assert(ev.take(i + 1).drop_last() == ev.take(i as int));
        assert(ev.take(i + 1).last() == ev[i as int]);
        assert(ev.take(i + 1)[m as int] == ev[m as int]);
        if entries[i].1 > entries[m].1 {
            m = i;
        }
        i = i + 1;
    }
    assert(ev.take(ev.len() as int) == ev);
    m
}

/// A row of a count table.
fn push_row(out: &mut Vec<String>, label: &[char], count: &[char], width: usize)
    ensures
        final(out)@.len() == old(out)@.len() + 1,
        final(out)@.drop_last() == old(out)@,
        final(out)@.last()@ == table_row(label@, count@, width as nat),
{
    let mut row = String::new();
    push_str(&mut row, "| ");
    push_chars(&mut row, label);
    if label.len() < width {
        push_spaces(&mut row, width - label.len());
    }
    push_str(&mut row, " | ");
    if count.len() < 4 {
        push_spaces(&mut row, 4 - count.len());
    }
    push_chars(&mut row, count);
    push_str(&mut row, " |");
    assert(row@ =~= table_row(label@, count@, width as nat));
    out.push(row);
    assert(out@.drop_last() =~= old(out)@);
}

proof fn lemma_total_step(s: Seq<(Seq<char>, nat)>, i: int)
    requires
        0 <= i < s.len(),
    ensures
        total_count(s.take(i + 1)) == total_count(s.take(i)) + s[i].1,
        label_width(s.take(i + 1), 8) == if s[i].0.len() > label_width(s.take(i), 8) {
            s[i].0.len()
        } else {
            label_width(s.take(i), 8)
        },
{
    assert(s.take(i + 1).drop_last() == s.take(i));
    assert(s.take(i + 1).last() == s[i]);
}

proof fn lemma_total_prefix(s: Seq<(Seq<char>, nat)>, i: int)
    requires
        0 <= i <= s.len(),
    ensures
        total_count(s.take(i)) <= total_count(s),
    decreases s.len() - i,
{
    if i < s.len() {
        lemma_total_prefix(s, i + 1);
        lemma_total_step(s, i);
    } else {
        assert(s.take(i) == s);
    }
}

/// The lines of the count table of `counts` (see `spec_counts_table`).
pub fn counts_table(counts: &[(String, usize)]) -> (lines: Vec<String>)
    requires
        total_count(counts_view(counts@)) <= usize::MAX,
    ensures
        strings_view(lines@) == spec_counts_table(counts_view(counts@)),
{
    let ghost cv = counts_view(counts@);
    let mut lines: Vec<String> = Vec::new();
    if counts.len() == 0 {
        return lines;
    }
    let entries = count_entries(counts);
    let mut width: usize = 8;
    let mut total: usize = 0;
    let mut i: usize = 0;
    assert(cv.take(0) =~= Seq::<(Seq<char>, nat)>::empty());
    while i < entries.len()
        invariant
            i <= entries@.len(),
            cv == counts_view(counts@),
            cv == entries_view(entries@),
            total_count(cv) <= usize::MAX,
            total == total_count(cv.take(i as int)),
            width == label_width(cv.take(i as int), 8),
        decreases entries.len() - i,
    {
        proof {
            lemma_total_step(cv, i as int);
            lemma_total_prefix(cv, i + 1);
        }
        total = total + entries[i].1;
        if entries[i].0.len() > width {
            width = entries[i].0.len();
        }
        i = i + 1;
    }
    assert(cv.take(cv.len() as int) == cv);
    let mut border = String::new();
    push_str(&mut border, "+-");
    let mut d: usize = 0;
    while d < width
        invariant
            d <= width,
            border@ == "+-"@ + Seq::new(d as nat, |i: int| '-'),
        decreases width - d,
    {
        crate::text::push_char(&mut border, '-');
        assert(border@ =~= "+-"@ + Seq::new((d + 1) as nat, |i: int| '-'));
        d = d + 1;
    }
    push_str(&mut border, "-+------+");
    let lang_title = chars_of("LANG");
    let count_title = chars_of("COUNT");
    let ghost b = table_border(width as nat);
    assert(border@ =~= b);
    lines.push(border.clone());
    assert(strings_view(lines@) =~= seq![b]);
    let ghost one = lines@;
    push_row(&mut lines, lang_title.as_slice(), count_title.as_slice(), width);
    assert(lines@ =~= one.push(lines@.last()));
    assert(strings_view(lines@) =~= seq![b, table_row("LANG"@, "COUNT"@, width as nat)]);
    lines.push(border.clone());
    let ghost head = strings_view(lines@);
    assert(head =~= seq![b, table_row("LANG"@, "COUNT"@, width as nat), b]);
    let mut rest = entries;
    let ghost sorted = by_count_desc(cv);
    proof {
        lemma_by_count_len(cv);
    }
    let mut done: usize = 0;
    assert(sorted.skip(0) == sorted);
    while rest.len() > 0
        invariant
            strings_view(lines@) == head + table_rows(sorted.take(done as int), width as nat),
            sorted == by_count_desc(cv),
            sorted.skip(done as int) == by_count_desc(entries_view(rest@)),
            done <= sorted.len(),
            done + rest@.len() == sorted.len(),
            sorted.len() == counts.len(),
        decreases rest.len(),
    {
        let ghost rv = entries_view(rest@);
        let k = first_max(&rest);
        let ghost rl = rest@.len();
        let (label, count) = rest.remove(k);
        assert(done + 1 <= sorted.len());
        proof {
            assert(rv.remove(k as int) =~= entries_view(rest@));
            assert(sorted.skip(done as int)[0] == rv[k as int]);
            assert(sorted.skip(done as int).drop_first() =~= sorted.skip(done + 1));
            assert(sorted.take(done + 1) =~= sorted.take(done as int).push(rv[k as int]));
        }
        let digits = decimal_chars(count);
        let ghost before = lines@;
        push_row(&mut lines, label.as_slice(), digits.as_slice(), width);
        proof {
            assert(strings_view(lines@) =~= strings_view(before).push(lines@.last()@));
            assert(table_rows(sorted.take(done + 1), width as nat) =~= table_rows(
                sorted.take(done as int),
                width as nat,
            ).push(table_row(rv[k as int].0, decimal(rv[k as int].1), width as nat)));
        }
        done = done + 1;
    }
    assert(sorted.take(done as int) =~= sorted);
    let ghost body = strings_view(lines@);
    lines.push(border.clone());
    assert(strings_view(lines@) =~= body.push(b));
    let total_title = chars_of("TOTAL");
    let total_digits = decimal_chars(total);
    push_row(&mut lines, total_title.as_slice(), total_digits.as_slice(), width);
    let ghost total_row = table_row("TOTAL"@, decimal(total_count(cv)), width as nat);
    assert(strings_view(lines@) =~= body.push(b).push(total_row));
    lines.push(border);
    assert(strings_view(lines@) =~= body.push(b).push(total_row).push(b));
    assert(strings_view(lines@) =~= body + seq![b, total_row, b]);
    assert(strings_view(lines@) =~= spec_counts_table(cv));
    lines
}

/// The count of a label is the number of line numbers listed for it.
pub open spec fn summary_counts(s: Seq<(Seq<char>, Seq<nat>)>) -> Seq<(Seq<char>, nat)> {
    s.map_values(|e: (Seq<char>, Seq<nat>)| (e.0, e.1.len()))
}

proof fn lemma_counts_match_summary_upto(hits: Seq<LineHitView>, r: nat)
    ensures
        label_counts_upto(hits, r) == summary_counts(hits_summary_upto(hits, r)),
    decreases r,
{
    if r > 0 {
        lemma_counts_match_summary_upto(hits, (r - 1) as nat);
        assert(label_counts_upto(hits, r) =~= summary_counts(hits_summary_upto(hits, r)));
    }
}

/// The per-label counts agree with the per-label line lists: the same labels,
/// in the same order, each counted as often as it has line numbers.
pub proof fn lemma_counts_match_summary(hits: Seq<LineHitView>)
    ensures
        label_counts(hits) == summary_counts(hits_summary(hits)),
{
    lemma_counts_match_summary_upto(hits, LANG_COUNT as nat);
}

/// How many labels the hits carry in all.
pub open spec fn labels_total(hits: Seq<LineHitView>) -> nat
    decreases hits.len(),
{
    if hits.len() == 0 {
        0
    } else {
        labels_total(hits.drop_last()) + hits.last().labels.len()
    }
}

/// How often the labels of alphabetical position below `r` were reported.
pub open spec fn rank_sum(hits: Seq<LineHitView>, r: nat) -> nat
    decreases r,
{
    if r == 0 {
        0
    } else {
        rank_sum(hits, (r - 1) as nat) + label_lines(hits, spec_lang_of_rank(r - 1)).len()
    }
}

/// How often the languages of alphabetical position below `r` occur in `labels`.
pub open spec fn rank_occurrences(labels: Seq<Lang>, r: nat) -> nat
    decreases r,
{
    if r == 0 {
        0
    } else {
        rank_occurrences(labels, (r - 1) as nat) + occurrences(labels, spec_lang_of_rank(r - 1))
    }
}

proof fn lemma_rank_of_rank(q: int)
    requires
        0 <= q < LANG_COUNT,
    ensures
        spec_label_rank(spec_lang_of_rank(q)) == q,
{
}

proof fn lemma_total_push(a: Seq<(Seq<char>, nat)>, b: Seq<(Seq<char>, nat)>)
    requires
        b.len() <= 1,
    ensures
        total_count(a + b) == total_count(a) + total_count(b),
{
    if b.len() == 1 {
        assert((a + b).drop_last() =~= a);
        assert((a + b).last() == b.last());
        assert(b.drop_last() =~= Seq::<(Seq<char>, nat)>::empty());
        assert(total_count(b.drop_last()) == 0);
    } else {
        assert(a + b =~= a);
    }
}

proof fn lemma_counts_upto_shape(hits: Seq<LineHitView>, r: nat)
    requires
        r <= LANG_COUNT,
    ensures
        total_count(label_counts_upto(hits, r)) == rank_sum(hits, r),
        forall|i: int| 0 <= i < label_counts_upto(hits, r).len() ==> #[trigger] label_counts_upto(hits, r)[i].1 >= 1,
        forall|i: int| 0 <= i < label_counts_upto(hits, r).len() ==> exists|q: int| 0 <= q < r && #[trigger] label_counts_upto(hits, r)[i].0 == spec_lang_label(spec_lang_of_rank(q)),
        forall|i: int, j: int| 0 <= i < j < label_counts_upto(hits, r).len() ==> lex_lt(#[trigger] label_counts_upto(hits, r)[i].0, #[trigger] label_counts_upto(hits, r)[j].0),
    decreases r,
{
    if r > 0 {
        let prev = label_counts_upto(hits, (r - 1) as nat);
        let lang = spec_lang_of_rank(r - 1);
        let lines = label_lines(hits, lang);
        let extra = if lines.len() > 0 {
            seq![(spec_lang_label(lang), lines.len())]
        } else {
            Seq::<(Seq<char>, nat)>::empty()
        };
        let c = label_counts_upto(hits, r);
        lemma_counts_upto_shape(hits, (r - 1) as nat);
        assert(c == prev + extra);
        lemma_total_push(prev, extra);
        if lines.len() > 0 {
            assert(total_count(extra) == lines.len()) by {
                assert(extra.drop_last() =~= Seq::<(Seq<char>, nat)>::empty());
                assert(total_count(extra.drop_last()) == 0);
            }
        }
        assert forall|i: int| 0 <= i < c.len() implies #[trigger] c[i].1 >= 1 by {
            if i < prev.len() {
                assert(c[i] == prev[i]);
            }
        }
        assert forall|i: int| 0 <= i < c.len() implies exists|q: int| 0 <= q < r && #[trigger] c[i].0 == spec_lang_label(spec_lang_of_rank(q)) by {
            if i < prev.len() {
                assert(c[i] == prev[i]);
                let q = choose|q: int| 0 <= q < r - 1 && #[trigger] prev[i].0 == spec_lang_label(spec_lang_of_rank(q));
                assert(c[i].0 == spec_lang_label(spec_lang_of_rank(q)));
            } else {
                assert(c[i].0 == spec_lang_label(spec_lang_of_rank(r - 1)));
            }
        }
        assert forall|i: int, j: int| 0 <= i < j < c.len() implies lex_lt(#[trigger] c[i].0, #[trigger] c[j].0) by {
            assert(c[i] == prev[i]);
            if j < prev.len() {
                assert(c[j] == prev[j]);
            } else {
                let q = choose|q: int| 0 <= q < r - 1 && #[trigger] prev[i].0 == spec_lang_label(spec_lang_of_rank(q));
                lemma_rank_of_rank(q);
                lemma_rank_of_rank(r - 1);
                lang::lemma_label_rank_alphabetical(spec_lang_of_rank(q), lang);
            }
        }
    }
}

proof fn lemma_rank_occurrences_step(labels: Seq<Lang>, r: nat)
    requires
        labels.len() > 0,
        r <= LANG_COUNT,
    ensures
        rank_occurrences(labels, r) == rank_occurrences(labels.drop_last(), r) + if spec_label_rank(labels.last()) < r {
            1nat
        } else {
            0nat
        },
    decreases r,
{
    if r > 0 {
        lemma_rank_occurrences_step(labels, (r - 1) as nat);
        lemma_rank_of_rank(r - 1);
        lang::lemma_label_rank_inverse(labels.last());
    }
}

proof fn lemma_rank_occurrences_all(labels: Seq<Lang>)
    ensures
        rank_occurrences(labels, LANG_COUNT as nat) == labels.len(),
    decreases labels.len(),
{
    if labels.len() > 0 {
        lemma_rank_occurrences_all(labels.drop_last());
        lemma_rank_occurrences_step(labels, LANG_COUNT as nat);
        lang::lemma_label_rank_inverse(labels.last());
    } else {
        assert(labels =~= Seq::<Lang>::empty());
        lemma_rank_occurrences_empty(LANG_COUNT as nat);
    }
}

proof fn lemma_rank_occurrences_empty(r: nat)
    ensures
        rank_occurrences(Seq::<Lang>::empty(), r) == 0,
    decreases r,
{
    if r > 0 {
        lemma_rank_occurrences_empty((r - 1) as nat);
    }
}

proof fn lemma_rank_sum_step(hits: Seq<LineHitView>, r: nat)
    requires
        hits.len() > 0,
    ensures
        rank_sum(hits, r) == rank_sum(hits.drop_last(), r) + rank_occurrences(hits.last().labels, r),
    decreases r,
{
    if r > 0 {
        lemma_rank_sum_step(hits, (r - 1) as nat);
    }
}

proof fn lemma_rank_sum_empty(r: nat)
    ensures
        rank_sum(Seq::<LineHitView>::empty(), r) == 0,
    decreases r,
{
    if r > 0 {
        lemma_rank_sum_empty((r - 1) as nat);
    }
}

proof fn lemma_rank_sum_all(hits: Seq<LineHitView>)
    ensures
        rank_sum(hits, LANG_COUNT as nat) == labels_total(hits),
    decreases hits.len(),
{
    if hits.len() > 0 {
        lemma_rank_sum_all(hits.drop_last());
        lemma_rank_sum_step(hits, LANG_COUNT as nat);
        lemma_rank_occurrences_all(hits.last().labels);
    } else {
        assert(hits =~= Seq::<LineHitView>::empty());
        lemma_rank_sum_empty(LANG_COUNT as nat);
    }
}

/// The per-label counts list each reported label once, in strictly ascending
/// alphabetical order, each with a count of at least one, and the counts add
/// up to the number of labels that the hits carry.
pub proof fn lemma_label_counts_shape(hits: Seq<LineHitView>)
    ensures
        forall|i: int| 0 <= i < label_counts(hits).len() ==> #[trigger] label_counts(hits)[i].1 >= 1,
        forall|i: int, j: int| 0 <= i < j < label_counts(hits).len() ==> lex_lt(#[trigger] label_counts(hits)[i].0, #[trigger] label_counts(hits)[j].0),
        total_count(label_counts(hits)) == labels_total(hits),
{
    lemma_counts_upto_shape(hits, LANG_COUNT as nat);
    lemma_rank_sum_all(hits);
}

} // verus!
