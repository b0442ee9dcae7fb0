//! Scanning text line by line for the requested languages.
use vstd::prelude::*;

use crate::lang::{KeywordMap, Lang};
use crate::text::{chars_of, string_from_chars};

use detect::{
    create_line_hit, flags_of, run_detect, scan_line_flags, spec_run_detect, spec_should_skip_line,
};
use flags::plan_of;
use highlight::spec_highlight;

pub mod detect;
pub mod evidence;
pub mod flags;
pub mod highlight;

pub use detect::should_skip_line;
pub use flags::{Flags, MatchMode, ScanPlan};

verus! {

/// A reported line: its 1-based number, the labels that matched (sorted by
/// label), the line as read and the line with highlights.
#[derive(Debug, Clone)]
pub struct LineHit {
    pub line_no: usize,
    pub labels: Vec<Lang>,
    pub original: String,
    pub highlighted: String,
}

/// The contents of a `LineHit`.
pub struct LineHitView {
    pub line_no: nat,
    pub labels: Seq<Lang>,
    pub original: Seq<char>,
    pub highlighted: Seq<char>,
}

impl View for LineHit {
    type V = LineHitView;

    open spec fn view(&self) -> LineHitView {
        LineHitView {
            line_no: self.line_no as nat,
            labels: self.labels@,
            original: self.original@,
            highlighted: self.highlighted@,
        }
    }
}

/// The views of a sequence of hits.
pub open spec fn hits_view(hits: Seq<LineHit>) -> Seq<LineHitView> {
    hits.map_values(|h: LineHit| h@)
}

/// The length of the first line of `t`, its `\n` included.
pub open spec fn first_line_len(t: Seq<char>) -> nat
    decreases t.len(),
{
    if t.len() == 0 {
        0
    } else if t[0] == '\n' {
        1
    } else {
        1 + first_line_len(t.drop_first())
    }
}

/// The first line of a text is no longer than the text, and not empty when the text is not.
pub proof fn lemma_first_line_len_bounds(t: Seq<char>)
    ensures
        first_line_len(t) <= t.len(),
        t.len() > 0 ==> first_line_len(t) >= 1,
    decreases t.len(),
{
    if t.len() > 0 && t[0] != '\n' {
        lemma_first_line_len_bounds(t.drop_first());
    }
}

/// The first line of `t` ends at the first `\n` of `t`, or at its end.
pub proof fn lemma_first_line_len(t: Seq<char>, k: int)
    requires
        0 <= k <= t.len(),
        forall|j: int| 0 <= j < k ==> t[j] != '\n',
        k == t.len() || t[k] == '\n',
    ensures
        first_line_len(t) == if k == t.len() {
            k
        } else {
            k + 1
        },
    decreases k,
{
    if k > 0 {
        lemma_first_line_len(t.drop_first(), k - 1);
    }
}

/// The lines of `t` as a line reader delivers them: each ends with its `\n`,
/// except a last line without one; an empty text has no line.
pub open spec fn raw_lines(t: Seq<char>) -> Seq<Seq<char>>
    decreases t.len(),
{
    if t.len() == 0 {
        Seq::empty()
    } else {
        let k = first_line_len(t);
        proof {
            lemma_first_line_len_bounds(t);
        }
        seq![t.take(k as int)] + raw_lines(t.skip(k as int))
    }
}

/// `s` without its trailing carriage returns and line feeds.
pub open spec fn trim_newline(s: Seq<char>) -> Seq<char>
    decreases s.len(),
{
    if s.len() > 0 && (s.last() == '\r' || s.last() == '\n') {
        trim_newline(s.drop_last())
    } else {
        s
    }
}

/// What the scan reports for line number `line_no` with contents `line`.
pub open spec fn line_outcome(
    line: Seq<char>,
    line_no: nat,
    langs: Seq<Lang>,
    keywords: Map<Lang, Seq<Seq<char>>>,
    mode: MatchMode,
) -> Seq<LineHitView> {
    let flags = flags_of(line, plan_of(langs));
    let plain = LineHitView {
        line_no,
        labels: Seq::empty(),
        original: line,
        highlighted: line,
    };
    if spec_should_skip_line(flags, langs, keywords, line) {
        if mode == MatchMode::Unmatched {
            seq![plain]
        } else {
            Seq::empty()
        }
    } else {
        let hits = spec_run_detect(line, langs, flags, keywords);
        if mode == MatchMode::Matched && hits.len() > 0 {
            seq![
                LineHitView {
                    line_no,
                    labels: hits,
                    original: line,
                    highlighted: spec_highlight(line, hits, keywords),
                },
            ]
        } else if mode == MatchMode::Unmatched && hits.len() == 0 {
            seq![plain]
        } else {
            Seq::empty()
        }
    }
}

/// The reports for `lines`, numbered from 1, each line without its line ending.
pub open spec fn scan_lines(
    lines: Seq<Seq<char>>,
    langs: Seq<Lang>,
    keywords: Map<Lang, Seq<Seq<char>>>,
    mode: MatchMode,
) -> Seq<LineHitView>
    decreases lines.len(),
{
    if lines.len() == 0 {
        Seq::empty()
    } else {
        scan_lines(lines.drop_last(), langs, keywords, mode) + line_outcome(
            trim_newline(lines.last()),
            lines.len(),
            langs,
            keywords,
            mode,
        )
    }
}

/// The reports for `text`.
pub open spec fn spec_scan_collect(
    text: Seq<char>,
    langs: Seq<Lang>,
    keywords: Map<Lang, Seq<Seq<char>>>,
    mode: MatchMode,
) -> Seq<LineHitView> {
    scan_lines(raw_lines(text), langs, keywords, mode)
}

/// The report for a line that carries no label: the line as it is.
fn plain_hit(line_no: usize, line: &[char]) -> (hit: LineHit)
    ensures
        hit@ == (LineHitView {
            line_no: line_no as nat,
            labels: Seq::empty(),
            original: line@,
            highlighted: line@,
        }),
{
    LineHit {
        line_no,
        labels: Vec::new(),
        original: string_from_chars(line),
        highlighted: string_from_chars(line),
    }
}

/// What the scan reports for one line.
fn scan_one_line(
    line: &[char],
    line_no: usize,
    plan: &ScanPlan,
    langs: &[Lang],
    keyword_map: &KeywordMap,
    mode: MatchMode,
) -> (out: Option<LineHit>)
    requires
        *plan == plan_of(langs@),
    ensures
        line_outcome(line@, line_no as nat, langs@, keyword_map@, mode) == match out {
            Some(hit) => seq![hit@],
            None => Seq::<LineHitView>::empty(),
        },
{
    let flags = scan_line_flags(line, plan);
    if should_skip_line(&flags, langs, keyword_map, line) {
        if mode == MatchMode::Unmatched {
            return Some(plain_hit(line_no, line));
        }
        return None;
    }
    let hits = run_detect(line, langs, &flags, keyword_map);
    let matched = hits.len() > 0;
    if mode == MatchMode::Matched && matched {
        Some(create_line_hit(line_no, line, hits, keyword_map))
    } else if mode == MatchMode::Unmatched && !matched {
        Some(plain_hit(line_no, line))
    } else {
        None
    }
}

/// Scans `text` line by line and reports, in `Matched` mode, each line on which
/// some language of `langs` matches (with its sorted labels and highlights), or
/// in `Unmatched` mode each line on which none does. Lines are numbered from 1;
/// their `\r`/`\n` endings are not part of them.
pub fn scan_collect(text: &str, langs: &[Lang], keyword_map: &KeywordMap, mode: MatchMode) -> (hits: Vec<LineHit>)
    ensures
        hits_view(hits@) == spec_scan_collect(text@, langs@, keyword_map@, mode),
{
    let t = chars_of(text);
    let n = t.len();
    let plan = ScanPlan::from_langs(langs);
    let mut hits_out: Vec<LineHit> = Vec::new();
    let ghost mut done: Seq<Seq<char>> = Seq::empty();
    let mut start: usize = 0;
    let mut line_no: usize = 0;
    assert(t@.skip(0) == t@);
    while start < n
        invariant
            n == t@.len(),
            start <= n,
            line_no == done.len(),
            line_no <= start,
            plan == plan_of(langs@),
            raw_lines(t@) == done + raw_lines(t@.skip(start as int)),
            hits_view(hits_out@) == scan_lines(done, langs@, keyword_map@, mode),
        decreases n - start,
    {
        let mut end: usize = start;
        while end < n && t[end] != '\n'
            invariant
                start <= end <= n,
                n == t@.len(),
                forall|j: int| start <= j < end ==> t@[j] != '\n',
            decreases n - end,
        {
            end = end + 1;
        }
        let line_end = if end < n {
            end + 1
        } else {
            n
        };
        let ghost rest = t@.skip(start as int);
        proof {
            lemma_first_line_len(rest, end - start);
            assert(rest.take(line_end - start) == t@.subrange(start as int, line_end as int));
            assert(rest.skip(line_end - start) == t@.skip(line_end as int));
        }
        let ghost raw = t@.subrange(start as int, line_end as int);
        let mut content_end: usize = line_end;
        while content_end > start && (t[content_end - 1] == '\r' || t[content_end - 1] == '\n')
            invariant
                start <= content_end <= line_end,
                line_end <= n,
                n == t@.len(),
                trim_newline(raw) == trim_newline(t@.subrange(start as int, content_end as int)),
            decreases content_end,
        {
            assert(t@.subrange(start as int, content_end as int).drop_last() == t@.subrange(
                start as int,
                content_end - 1,
            ));
            content_end = content_end - 1;
        }
        let mut line: Vec<char> = Vec::new();
        let mut j: usize = start;
        while j < content_end
            invariant
                start <= j <= content_end,
                content_end <= n,
                n == t@.len(),
                line@ == t@.subrange(start as int, j as int),
            decreases content_end - j,
        {
            line.push(t[j]);
            assert(t@.subrange(start as int, j + 1) == t@.subrange(start as int, j as int).push(
                t@[j as int],
            ));
            j = j + 1;
        }
        assert(trim_newline(raw) == line@);
        line_no = line_no + 1;
        let out = scan_one_line(&line, line_no, &plan, langs, keyword_map, mode);
        proof {
            let done2 = done.push(raw);
            assert(done2.drop_last() == done);
            assert(done2.last() == raw);
            assert(raw_lines(t@) == done2 + raw_lines(t@.skip(line_end as int))) by {
                assert(raw_lines(rest) == seq![raw] + raw_lines(t@.skip(line_end as int)));
                assert(done + (seq![raw] + raw_lines(t@.skip(line_end as int))) =~= done2 + raw_lines(
                    t@.skip(line_end as int),
                ));
            }
            done = done2;
        }
        match out {
            Some(hit) => {
                hits_out.push(hit);
            },
            None => {},
        }
        assert(hits_view(hits_out@) =~= scan_lines(done, langs@, keyword_map@, mode));
        start = line_end;
    }
    assert(t@.skip(n as int) =~= Seq::<char>::empty());
    assert(done + Seq::<Seq<char>>::empty() =~= done);
    hits_out
}

/// Some report in `hits` is about line number `k`.
pub open spec fn reports_line(hits: Seq<LineHitView>, k: nat) -> bool {
    exists|i: int| 0 <= i < hits.len() && #[trigger] hits[i].line_no == k
}

proof fn lemma_line_outcome_modes(
    line: Seq<char>,
    no: nat,
    langs: Seq<Lang>,
    keywords: Map<Lang, Seq<Seq<char>>>,
)
    ensures
        line_outcome(line, no, langs, keywords, MatchMode::Matched).len() + line_outcome(
            line,
            no,
            langs,
            keywords,
            MatchMode::Unmatched,
        ).len() == 1,
        forall|i: int| 0 <= i < line_outcome(line, no, langs, keywords, MatchMode::Matched).len() ==> {
            let h = #[trigger] line_outcome(line, no, langs, keywords, MatchMode::Matched)[i];
            h.line_no == no && h.labels.len() > 0
        },
        forall|i: int| 0 <= i < line_outcome(line, no, langs, keywords, MatchMode::Unmatched).len() ==> {
            let h = #[trigger] line_outcome(line, no, langs, keywords, MatchMode::Unmatched)[i];
            h.line_no == no && h.labels.len() == 0 && h.highlighted == h.original
        },
{
}

proof fn lemma_scan_lines_modes(
    lines: Seq<Seq<char>>,
    langs: Seq<Lang>,
    keywords: Map<Lang, Seq<Seq<char>>>,
)
    ensures
        ({
            let m = scan_lines(lines, langs, keywords, MatchMode::Matched);
            let u = scan_lines(lines, langs, keywords, MatchMode::Unmatched);
            &&& forall|i: int| 0 <= i < m.len() ==> 1 <= #[trigger] m[i].line_no <= lines.len() && m[i].labels.len() > 0
            &&& forall|i: int| 0 <= i < u.len() ==> {
                &&& 1 <= #[trigger] u[i].line_no <= lines.len()
                &&& u[i].labels.len() == 0
                &&& u[i].highlighted == u[i].original
            }
            &&& forall|k: nat| #[trigger] reports_line(m, k) <==> (1 <= k <= lines.len() && !reports_line(u, k))
            &&& forall|i: int, j: int| 0 <= i < j < m.len() ==> #[trigger] m[i].line_no < #[trigger] m[j].line_no
            &&& forall|i: int, j: int| 0 <= i < j < u.len() ==> #[trigger] u[i].line_no < #[trigger] u[j].line_no
        }),
    decreases lines.len(),
{
    let m = scan_lines(lines, langs, keywords, MatchMode::Matched);
    let u = scan_lines(lines, langs, keywords, MatchMode::Unmatched);
    if lines.len() > 0 {
        let prev = lines.drop_last();
        lemma_scan_lines_modes(prev, langs, keywords);
        let pm = scan_lines(prev, langs, keywords, MatchMode::Matched);
        let pu = scan_lines(prev, langs, keywords, MatchMode::Unmatched);
        let line = trim_newline(lines.last());
        let n = lines.len();
        let om = line_outcome(line, n, langs, keywords, MatchMode::Matched);
        let ou = line_outcome(line, n, langs, keywords, MatchMode::Unmatched);
        lemma_line_outcome_modes(line, n, langs, keywords);
        assert(m == pm + om);
        assert(u == pu + ou);
        assert forall|i: int| 0 <= i < m.len() implies 1 <= #[trigger] m[i].line_no <= lines.len() && m[i].labels.len() > 0 by {
            if i >= pm.len() {
                assert(m[i] == om[i - pm.len()]);
            } else {
                assert(m[i] == pm[i]);
            }
        }
        assert forall|i: int| 0 <= i < u.len() implies {
            &&& 1 <= #[trigger] u[i].line_no <= lines.len()
            &&& u[i].labels.len() == 0
            &&& u[i].highlighted == u[i].original
        } by {
            if i >= pu.len() {
                assert(u[i] == ou[i - pu.len()]);
            } else {
                assert(u[i] == pu[i]);
            }
        }
        assert forall|i: int, j: int| 0 <= i < j < m.len() implies #[trigger] m[i].line_no < #[trigger] m[j].line_no by {
            assert(m[i] == pm[i]);
            if j < pm.len() {
                assert(m[j] == pm[j]);
            } else {
                assert(m[j] == om[j - pm.len()]);
            }
        }
        assert forall|i: int, j: int| 0 <= i < j < u.len() implies #[trigger] u[i].line_no < #[trigger] u[j].line_no by {
            assert(u[i] == pu[i]);
            if j < pu.len() {
                assert(u[j] == pu[j]);
            } else {
                assert(u[j] == ou[j - pu.len()]);
            }
        }
        assert forall|k: nat| #[trigger] reports_line(m, k) <==> (1 <= k <= lines.len() && !reports_line(u, k)) by {
            if reports_line(pm, k) {
                let i = choose|i: int| 0 <= i < pm.len() && #[trigger] pm[i].line_no == k;
                assert(m[i] == pm[i]);
            }
            if reports_line(pu, k) {
                let i = choose|i: int| 0 <= i < pu.len() && #[trigger] pu[i].line_no == k;
                assert(u[i] == pu[i]);
            }
            if om.len() > 0 {
                assert(m[pm.len() as int] == om[0]);
            }
            if ou.len() > 0 {
                assert(u[pu.len() as int] == ou[0]);
            }
            if reports_line(m, k) {
                let i = choose|i: int| 0 <= i < m.len() && #[trigger] m[i].line_no == k;
                if i < pm.len() {
                    assert(pm[i] == m[i]);
                } else {
                    assert(m[i] == om[i - pm.len()]);
                }
            }
            if reports_line(u, k) {
                let i = choose|i: int| 0 <= i < u.len() && #[trigger] u[i].line_no == k;
                if i < pu.len() {
                    assert(pu[i] == u[i]);
                } else {
                    assert(u[i] == ou[i - pu.len()]);
                }
            }
        }
    }
}

/// Normal and inverted scans of the same text split its lines between them:
/// every line is reported by exactly one of the two modes; normal reports carry
/// labels, inverted reports carry none and give the line unhighlighted; in
/// either mode the reported line numbers strictly increase.
pub proof fn lemma_modes_partition_lines(
    text: Seq<char>,
    langs: Seq<Lang>,
    keywords: Map<Lang, Seq<Seq<char>>>,
)
    ensures
        ({
            let m = spec_scan_collect(text, langs, keywords, MatchMode::Matched);
            let u = spec_scan_collect(text, langs, keywords, MatchMode::Unmatched);
            let n = raw_lines(text).len();
            &&& forall|k: nat| #[trigger] reports_line(m, k) <==> (1 <= k <= n && !reports_line(u, k))
            &&& forall|i: int| 0 <= i < m.len() ==> 1 <= #[trigger] m[i].line_no <= n && m[i].labels.len() > 0
            &&& forall|i: int| 0 <= i < u.len() ==> {
                &&& 1 <= #[trigger] u[i].line_no <= n
                &&& u[i].labels.len() == 0
                &&& u[i].highlighted == u[i].original
            }
            &&& forall|i: int, j: int| 0 <= i < j < m.len() ==> #[trigger] m[i].line_no < #[trigger] m[j].line_no
            &&& forall|i: int, j: int| 0 <= i < j < u.len() ==> #[trigger] u[i].line_no < #[trigger] u[j].line_no
        }),
{
    lemma_scan_lines_modes(raw_lines(text), langs, keywords);
}

} // verus!
