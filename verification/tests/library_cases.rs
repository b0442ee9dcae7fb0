use langscan::lang::keywords::keyword_file_entries;
use langscan::lang::{
    self, is_arabic, is_cjk, is_cyrillic, is_devanagari, is_greek, is_hangul, is_hebrew,
    is_japanese, is_latin_extended, is_persian, is_polish, is_simplified_marker, is_thai,
    is_traditional_marker, is_turkish, is_ukrainian, is_urdu, is_vietnamese, lang_label,
    load_keywords, parse_lang, resolve_langs, KeywordMap, Lang,
};
use langscan::output::{
    collect_serialized_file_results, count_by_lang, counts_table, json_file_result,
    json_line_results, summarize_hits, summarize_misses, text_line, yaml_file_result,
    JsonFileResult, OutputFormat, YamlFileResult,
};
use langscan::scanner::detect::{
    create_line_hit, is_highlight_char, lang_matches, run_detect, scan_line_flags,
    should_skip_line,
};
use langscan::scanner::highlight::highlight_line;
use langscan::scanner::{scan_collect, Flags, LineHit, MatchMode, ScanPlan};

const ALL: [Lang; 19] = [
    Lang::Ar,
    Lang::Cjk,
    Lang::El,
    Lang::Fa,
    Lang::He,
    Lang::Hi,
    Lang::Ja,
    Lang::Ko,
    Lang::KoKp,
    Lang::KoKr,
    Lang::Pl,
    Lang::Ru,
    Lang::Th,
    Lang::Tr,
    Lang::Uk,
    Lang::Ur,
    Lang::Vi,
    Lang::ZhHans,
    Lang::ZhHant,
];

fn chars(s: &str) -> Vec<char> {
    s.chars().collect()
}

fn builtins() -> KeywordMap {
    load_keywords(&[]).unwrap()
}

fn hit(line_no: usize, labels: Vec<Lang>, text: &str) -> LineHit {
    LineHit { line_no, labels, original: text.to_string(), highlighted: text.to_string() }
}

// --- character classes ---

#[test]
fn script_predicates_accept_their_letters() {
    assert!(is_arabic('ا') && is_arabic('ﻙ') && !is_arabic('a'));
    assert!(is_cjk('东') && is_cjk('漢') && !is_cjk('テ') && !is_cjk('한'));
    assert!(is_cyrillic('ё') && is_cyrillic('Ў') && !is_cyrillic('e'));
    assert!(is_greek('α') && is_greek('Ω') && !is_greek('a'));
    assert!(is_hebrew('א') && !is_hebrew('ا'));
    assert!(is_devanagari('अ') && !is_devanagari('ก'));
    assert!(is_japanese('あ') && is_japanese('テ') && !is_japanese('漢'));
    assert!(is_hangul('한') && is_hangul('ᄀ') && !is_hangul('あ'));
    assert!(is_thai('ก') && !is_thai('अ'));
    assert!(is_latin_extended('ą') && is_latin_extended('ơ') && !is_latin_extended('é'));
    assert!(is_vietnamese('ơ') && is_vietnamese('ế') && !is_vietnamese('é') && !is_vietnamese('ą'));
    assert!(is_persian('پ') && is_persian('گ') && !is_persian('ع'));
    assert!(is_urdu('ں') && is_urdu('ے') && !is_urdu('ي'));
    assert!(is_polish('ą') && is_polish('ó') && !is_polish('é'));
    assert!(is_turkish('ğ') && is_turkish('ı') && !is_turkish('ç'));
    assert!(is_ukrainian('ї') && is_ukrainian('ґ') && !is_ukrainian('Ў') && !is_ukrainian('и'));
    assert!(is_simplified_marker('东') && !is_simplified_marker('東'));
    assert!(is_traditional_marker('這') && !is_traditional_marker('这'));
}

// --- names and labels ---

#[test]
fn labels_parse_back_to_their_language() {
    for lang in ALL {
        assert_eq!(parse_lang(lang_label(lang)), Ok(lang));
    }
}

#[test]
fn lang_names_ignore_case_and_surrounding_space() {
    assert_eq!(parse_lang("  AR "), Ok(Lang::Ar));
    assert_eq!(parse_lang("ZH-Hant"), Ok(Lang::ZhHant));
    assert_eq!(parse_lang("north-korea"), Ok(Lang::KoKp));
    assert_eq!(parse_lang("Turkish"), Ok(Lang::Tr));
    assert_eq!(parse_lang("ukr"), Ok(Lang::Uk));
    assert_eq!(parse_lang("pol"), Ok(Lang::Pl));
    assert_eq!("farsi".parse::<Lang>(), Ok(Lang::Fa));
}

#[test]
fn unknown_lang_name_is_reported() {
    assert_eq!(parse_lang(" XX "), Err("unknown lang: xx".to_string()));
    assert_eq!(parse_lang(""), Err("unknown lang: ".to_string()));
}

#[test]
fn labels_are_the_documented_short_names() {
    let labels: Vec<&str> = ALL.iter().copied().map(lang_label).collect();
    assert_eq!(
        labels,
        vec![
            "ar", "cjk", "el", "fa", "he", "hi", "ja", "ko", "dprk", "rok", "pl", "ru", "th", "tr",
            "uk", "ur", "vi", "cn", "tw"
        ]
    );
}

// --- keyword hints ---

#[test]
fn built_in_keywords_cover_korean_regions_and_chinese_markers() {
    let kw = builtins();
    assert!(kw.get(Lang::KoKp).unwrap().contains(&chars("평양")));
    assert!(kw.get(Lang::KoKr).unwrap().contains(&chars("대한민국")));
    assert!(kw.get(Lang::ZhHans).unwrap().contains(&chars("东")));
    assert!(kw.get(Lang::ZhHant).unwrap().contains(&chars("這")));
    assert!(kw.get(Lang::Ru).is_none());
    assert!(kw.get(Lang::Ja).is_none());
}

#[test]
fn keyword_entries_append_trimmed_words_in_order() {
    let entries = vec!["ru= malware ".to_string(), " RU =dropper".to_string(), "ja=".to_string()];
    let kw = load_keywords(&entries).unwrap();
    assert_eq!(kw.get(Lang::Ru).unwrap(), &vec![chars("malware"), chars("dropper")]);
    assert!(kw.get(Lang::Ja).is_none());
    let kp = kw.get(Lang::KoKp).unwrap().len();
    let entries = vec!["dprk=juche".to_string()];
    let kw = load_keywords(&entries).unwrap();
    let list = kw.get(Lang::KoKp).unwrap();
    assert_eq!(list.len(), kp + 1);
    assert_eq!(list[kp], chars("juche"));
}

#[test]
fn keyword_entry_without_separator_is_refused() {
    let entries = vec!["ru=ok".to_string(), "malware".to_string(), "xx=bad".to_string()];
    let err = load_keywords(&entries).unwrap_err();
    assert_eq!(err.message, "keyword expects lang=word");
}

#[test]
fn keyword_entry_with_unknown_language_is_refused() {
    let entries = vec!["Klingon=qapla".to_string()];
    let err = load_keywords(&entries).unwrap_err();
    assert_eq!(err.message, "unknown lang: klingon");
}

#[test]
fn keyword_file_skips_blank_lines_and_comments() {
    let text = "# keywords.txt\n\n  dprk=juche \r\n   # indented comment\nrok=hanguk\nru=moskva";
    assert_eq!(
        keyword_file_entries(text),
        vec!["dprk=juche".to_string(), "rok=hanguk".to_string(), "ru=moskva".to_string()]
    );
    assert!(keyword_file_entries("").is_empty());
}

// --- language selection ---

#[test]
fn default_selection_covers_every_language() {
    assert_eq!(resolve_langs(&[]), ALL.to_vec());
}

#[test]
fn cjk_and_korean_bring_their_regional_labels() {
    assert_eq!(resolve_langs(&[Lang::Cjk]), vec![Lang::Cjk, Lang::Ja, Lang::ZhHans, Lang::ZhHant]);
    assert_eq!(resolve_langs(&[Lang::Ko, Lang::El]), vec![Lang::El, Lang::Ko, Lang::KoKp, Lang::KoKr]);
    assert_eq!(resolve_langs(&[Lang::Ru, Lang::Ar, Lang::Ru]), vec![Lang::Ar, Lang::Ru]);
}

// --- scan plan and flags ---

#[test]
fn plan_lists_the_scripts_the_languages_need() {
    let plan = ScanPlan::from_langs(&[Lang::ZhHans, Lang::Pl]);
    assert!(plan.need_cjk && plan.need_simplified_marker && plan.need_polish);
    assert!(!plan.need_traditional_marker && !plan.need_japanese && !plan.need_cyr);
    let plan = ScanPlan::from_langs(&[Lang::KoKr]);
    assert!(plan.need_hangul && !plan.need_cjk);
}

#[test]
fn flags_report_only_planned_scripts() {
    let plan = ScanPlan::from_langs(&[Lang::Ja, Lang::Ru]);
    let flags = scan_line_flags(&chars("テスト пример Ελληνικά"), &plan);
    assert!(flags.has_japanese && flags.has_cyr);
    assert!(!flags.has_cjk && !flags.has_greek);
    assert!(plan.is_complete(&flags) == false);
    let flags = scan_line_flags(&chars("漢字テスト пример"), &plan);
    assert!(flags.has_cjk && flags.has_japanese && flags.has_cyr);
    assert!(plan.is_complete(&flags));
}

#[test]
fn ascii_line_without_keywords_is_skipped() {
    let kw = builtins();
    let langs = [Lang::Ru, Lang::Ja];
    let plan = ScanPlan::from_langs(&langs);
    let line = chars("plain ascii");
    let flags = scan_line_flags(&line, &plan);
    assert!(should_skip_line(&flags, &langs, &kw, &line));
    assert!(run_detect(&line, &langs, &flags, &kw).is_empty());
    let entries = vec!["ru=ascii".to_string()];
    let kw = load_keywords(&entries).unwrap();
    assert!(!should_skip_line(&flags, &langs, &kw, &line));
}

#[test]
fn russian_yields_to_ukrainian_and_polish_to_vietnamese() {
    let kw = builtins();
    let mut flags = Flags::default();
    flags.has_cyr = true;
    flags.has_ukrainian = true;
    assert!(!lang_matches(Lang::Ru, &chars("Україна"), &flags, &kw));
    assert!(lang_matches(Lang::Uk, &chars("Україна"), &flags, &kw));
    let mut flags = Flags::default();
    flags.has_polish = true;
    flags.has_vietnamese = true;
    assert!(!lang_matches(Lang::Pl, &chars("có"), &flags, &kw));
}

#[test]
fn korean_regions_need_their_keywords() {
    let kw = builtins();
    let mut flags = Flags::default();
    flags.has_hangul = true;
    let line = chars("테스트");
    assert!(lang_matches(Lang::Ko, &line, &flags, &kw));
    assert!(!lang_matches(Lang::KoKp, &line, &flags, &kw));
    assert!(!lang_matches(Lang::KoKr, &line, &flags, &kw));
    assert!(lang_matches(Lang::KoKp, &chars("평양"), &flags, &kw));
    let empty = KeywordMap::new();
    assert!(lang_matches(Lang::KoKr, &line, &flags, &empty));
}

#[test]
fn regional_korean_labels_highlight_no_letters() {
    assert!(is_highlight_char(Lang::Ko, '한'));
    assert!(!is_highlight_char(Lang::KoKp, '한'));
    assert!(!is_highlight_char(Lang::KoKr, '한'));
    assert!(is_highlight_char(Lang::ZhHant, '這'));
}

#[test]
fn detected_labels_come_sorted_by_label() {
    let kw = builtins();
    let langs = [Lang::Ko, Lang::Ar, Lang::ZhHant, Lang::Cjk, Lang::ZhHans, Lang::KoKr];
    let line = chars("安全测试 這 대한민국 العربية");
    let plan = ScanPlan::from_langs(&langs);
    let flags = scan_line_flags(&line, &plan);
    let hits = run_detect(&line, &langs, &flags, &kw);
    assert_eq!(hits, vec![Lang::Ar, Lang::Cjk, Lang::ZhHans, Lang::Ko, Lang::KoKr, Lang::ZhHant]);
    let dup = run_detect(&line, &[Lang::Ko, Lang::Ar, Lang::Ko], &flags, &kw);
    assert_eq!(dup, vec![Lang::Ar, Lang::Ko, Lang::Ko]);
}

// --- highlighting ---

#[test]
fn highlight_wraps_each_run_once() {
    let kw = builtins();
    let out = highlight_line(&chars("abc テスト def"), &[Lang::Ja], &kw);
    assert_eq!(out, "abc \x1b[31mテスト\x1b[0m def");
    let out = highlight_line(&chars("テaテ"), &[Lang::Ja], &kw);
    assert_eq!(out, "\x1b[31mテ\x1b[0ma\x1b[31mテ\x1b[0m");
    let out = highlight_line(&chars("plain"), &[Lang::Ja], &kw);
    assert_eq!(out, "plain");
}

#[test]
fn highlight_marks_non_overlapping_keyword_occurrences() {
    let entries = vec!["ru=aa".to_string()];
    let kw = load_keywords(&entries).unwrap();
    let out = highlight_line(&chars("aaa"), &[Lang::Ru], &kw);
    assert_eq!(out, "\x1b[31maa\x1b[0ma");
    let out = highlight_line(&chars("xaaaa"), &[Lang::Ru], &kw);
    assert_eq!(out, "x\x1b[31maaaa\x1b[0m");
}

#[test]
fn line_hit_keeps_the_line_and_its_labels() {
    let kw = builtins();
    let hit = create_line_hit(7, &chars("к"), vec![Lang::Ru], &kw);
    assert_eq!(hit.line_no, 7);
    assert_eq!(hit.labels, vec![Lang::Ru]);
    assert_eq!(hit.original, "к");
    assert_eq!(hit.highlighted, "\x1b[31mк\x1b[0m");
}

// --- scanning ---

#[test]
fn empty_text_has_no_lines() {
    let kw = builtins();
    assert!(scan_collect("", &[Lang::Ja], &kw, MatchMode::Matched).is_empty());
    assert!(scan_collect("", &[Lang::Ja], &kw, MatchMode::Unmatched).is_empty());
}

#[test]
fn line_endings_are_not_part_of_lines() {
    let kw = builtins();
    let hits = scan_collect("a\r\n\r\nテ\r\r\nlast", &[Lang::Ja], &kw, MatchMode::Unmatched);
    let seen: Vec<(usize, String)> = hits.iter().map(|h| (h.line_no, h.original.clone())).collect();
    assert_eq!(seen, vec![(1, "a".to_string()), (2, String::new()), (4, "last".to_string())]);
    let hits = scan_collect("a\r\n\r\nテ\r\r\nlast", &[Lang::Ja], &kw, MatchMode::Matched);
    assert_eq!(hits.len(), 1);
    assert_eq!(hits[0].line_no, 3);
    assert_eq!(hits[0].original, "テ");
}

#[test]
fn normal_and_inverted_scans_split_the_lines() {
    let kw = builtins();
    let text = "x\nテスト\nпример\n\nyz\n";
    let langs = [Lang::Ja];
    let matched = scan_collect(text, &langs, &kw, MatchMode::Matched);
    let unmatched = scan_collect(text, &langs, &kw, MatchMode::Unmatched);
    let mut all: Vec<usize> = matched.iter().chain(unmatched.iter()).map(|h| h.line_no).collect();
    all.sort();
    assert_eq!(all, vec![1, 2, 3, 4, 5]);
    assert!(matched.iter().all(|h| !h.labels.is_empty()));
    assert!(unmatched.iter().all(|h| h.labels.is_empty() && h.highlighted == h.original));
}

#[test]
fn keyword_only_language_still_reported() {
    let entries = vec!["ru=malware".to_string()];
    let kw = load_keywords(&entries).unwrap();
    let hits = scan_collect("malware detected\n", &[Lang::Ru, Lang::Ja], &kw, MatchMode::Matched);
    assert_eq!(hits.len(), 1);
    assert_eq!(hits[0].labels, vec![Lang::Ru]);
    assert_eq!(hits[0].highlighted, "\x1b[31mmalware\x1b[0m detected");
}

// --- summaries and output records ---

fn sample_hits() -> Vec<LineHit> {
    vec![
        hit(1, vec![Lang::Ja, Lang::Cjk], "テ漢"),
        hit(2, vec![], "plain"),
        hit(4, vec![Lang::Ja], "テ"),
        hit(5, vec![Lang::Ru], "к"),
    ]
}

#[test]
fn hits_are_summarized_per_label_in_label_order() {
    let summary = summarize_hits(&sample_hits());
    assert_eq!(
        summary,
        vec![
            ("cjk".to_string(), vec![1]),
            ("ja".to_string(), vec![1, 4]),
            ("ru".to_string(), vec![5]),
        ]
    );
    assert_eq!(summarize_misses(&sample_hits()), vec![2]);
    assert_eq!(
        count_by_lang(&sample_hits()),
        vec![("cjk".to_string(), 1), ("ja".to_string(), 2), ("ru".to_string(), 1)]
    );
}

#[test]
fn counts_agree_with_summary() {
    let hits = sample_hits();
    let counts: Vec<(String, usize)> =
        summarize_hits(&hits).into_iter().map(|(l, v)| (l, v.len())).collect();
    assert_eq!(counts, count_by_lang(&hits));
}

#[test]
fn count_table_lists_largest_counts_first() {
    let lines = counts_table(&count_by_lang(&sample_hits()));
    assert_eq!(
        lines,
        vec![
            "+----------+------+",
            "| LANG     | COUNT |",
            "+----------+------+",
            "| ja       |    2 |",
            "| cjk      |    1 |",
            "| ru       |    1 |",
            "+----------+------+",
            "| TOTAL    |    4 |",
            "+----------+------+",
        ]
    );
    assert!(counts_table(&[]).is_empty());
    let wide = counts_table(&[("longerlabel".to_string(), 12345)]);
    assert_eq!(wide[0], "+-------------+------+");
    assert_eq!(wide[3], "| longerlabel | 12345 |");
}

#[test]
fn text_lines_follow_the_documented_layout() {
    let h = LineHit {
        line_no: 1234,
        labels: vec![Lang::Cjk, Lang::Ja],
        original: "x".to_string(),
        highlighted: "hl".to_string(),
    };
    assert_eq!(text_line(None, &h, false, false), "[L1234:cjk,ja] hl");
    assert_eq!(text_line(Some("path/to/file"), &h, true, false), "[path/to/file:L1234:cjk,ja] hl");
    assert_eq!(text_line(None, &h, true, false), "[-:L1234:cjk,ja] hl");
    assert_eq!(text_line(Some("f"), &h, false, true), "[L1234] hl");
    assert_eq!(text_line(Some("f"), &h, true, true), "[f:L1234] hl");
    let h0 = hit(0, vec![], "");
    assert_eq!(text_line(None, &h0, false, false), "[L0:] ");
}

#[test]
fn file_records_collect_per_format() {
    let hits = sample_hits();
    let mut json: Vec<JsonFileResult> = Vec::new();
    let mut yaml: Vec<YamlFileResult> = Vec::new();
    collect_serialized_file_results(OutputFormat::Text, "a", &hits, &mut json, &mut yaml);
    collect_serialized_file_results(OutputFormat::JsonLines, "a", &hits, &mut json, &mut yaml);
    assert!(json.is_empty() && yaml.is_empty());
    collect_serialized_file_results(OutputFormat::Json, "a", &hits, &mut json, &mut yaml);
    collect_serialized_file_results(OutputFormat::Yaml, "b", &hits, &mut json, &mut yaml);
    assert_eq!(json.len(), 1);
    assert_eq!(yaml.len(), 1);
    assert_eq!(json[0].file, Some("a".to_string()));
    assert_eq!(json[0].misses, vec![2]);
    assert_eq!(yaml[0].file, Some("b".to_string()));
    assert_eq!(yaml[0].hits, summarize_hits(&hits));
    let single = json_file_result(None, &hits);
    assert_eq!(single.file, None);
    assert_eq!(single.hits.len(), 3);
    let y = yaml_file_result(Some("c"), &[]);
    assert!(y.hits.is_empty() && y.misses.is_empty());
}

#[test]
fn json_line_records_carry_line_contents_and_labels() {
    let hits = sample_hits();
    let records = json_line_results(Some("f.txt"), &hits);
    assert_eq!(records.len(), 4);
    assert_eq!(records[0].file, Some("f.txt".to_string()));
    assert_eq!(records[0].line, 1);
    assert_eq!(records[0].content, "テ漢");
    assert_eq!(records[0].labels, vec!["ja".to_string(), "cjk".to_string()]);
    assert!(records[1].labels.is_empty());
}

// --- overlapping labels ---

#[test]
fn persian_and_urdu_letters_are_also_arabic() {
    let kw = builtins();
    let fa = scan_collect("گ\n", &[Lang::Ar, Lang::Fa], &kw, MatchMode::Matched);
    assert_eq!(fa.len(), 1);
    assert_eq!(fa[0].labels, vec![Lang::Ar, Lang::Fa]);
    let ur = scan_collect("ٹ\n", &[Lang::Ar, Lang::Ur], &kw, MatchMode::Matched);
    assert_eq!(ur.len(), 1);
    assert_eq!(ur[0].labels, vec![Lang::Ar, Lang::Ur]);
}

#[test]
fn regional_korean_keyword_also_labels_korean() {
    let kw = builtins();
    let hits = scan_collect("서울\n", &[Lang::Ko, Lang::KoKr], &kw, MatchMode::Matched);
    assert_eq!(hits.len(), 1);
    assert_eq!(hits[0].labels, vec![Lang::Ko, Lang::KoKr]);
}

#[test]
fn ukrainian_keyword_for_russian_still_labels_russian() {
    let kw = load_keywords(&["ru=Україна".to_string()]).unwrap();
    let hits = scan_collect("Україна\n", &[Lang::Ru, Lang::Uk], &kw, MatchMode::Matched);
    assert_eq!(hits.len(), 1);
    assert_eq!(hits[0].labels, vec![Lang::Ru, Lang::Uk]);
}

// --- laws on concrete values ---

#[test]
fn highlight_only_adds_balanced_escapes() {
    let kw = load_keywords(&["ru=aa".to_string()]).unwrap();
    let line = "x тест aaa テ y";
    let out = highlight_line(&chars(line), &[Lang::Ru, Lang::Ja], &kw);
    assert_ne!(out, line);
    assert_eq!(out.replace("\x1b[31m", "").replace("\x1b[0m", ""), line);
    assert_eq!(out.matches("\x1b[31m").count(), out.matches("\x1b[0m").count());
    assert_eq!(highlight_line(&chars(line), &[], &kw), line);
}

#[test]
fn parsing_a_normalised_name_changes_nothing() {
    for name in ["  Ja ", "KO-KP", "\tzh-HANS\n", " Klingon "] {
        let normal = name.trim().to_ascii_lowercase();
        assert_eq!(parse_lang(name), parse_lang(&normal));
    }
    assert_eq!(parse_lang(" Klingon "), Err("unknown lang: klingon".to_string()));
}

#[test]
fn counts_are_positive_ascending_and_add_up() {
    let lines = vec![
        hit(1, vec![Lang::Ru, Lang::Uk], "a"),
        hit(2, vec![Lang::Ar], "b"),
        hit(3, vec![], "c"),
        hit(4, vec![Lang::Ru], "d"),
    ];
    let counts = count_by_lang(&lines);
    assert_eq!(counts, vec![("ar".to_string(), 1), ("ru".to_string(), 2), ("uk".to_string(), 1)]);
    assert!(counts.windows(2).all(|w| w[0].0 < w[1].0));
    assert!(counts.iter().all(|(_, c)| *c >= 1));
    let total: usize = counts.iter().map(|(_, c)| c).sum();
    assert_eq!(total, lines.iter().map(|h| h.labels.len()).sum::<usize>());
}

#[test]
fn chinese_markers_skip_forms_that_japanese_shares() {
    let kw = builtins();
    let cn = scan_collect("钢铁\n", &[Lang::ZhHans], &kw, MatchMode::Matched);
    assert_eq!(cn.len(), 1);
    assert_eq!(cn[0].labels, vec![Lang::ZhHans]);
    let tw = scan_collect("鬥爭\n", &[Lang::ZhHant], &kw, MatchMode::Matched);
    assert_eq!(tw.len(), 1);
    assert_eq!(tw[0].labels, vec![Lang::ZhHant]);
    let shared = scan_collect("学校\n", &[Lang::ZhHans, Lang::ZhHant], &kw, MatchMode::Matched);
    assert!(shared.is_empty());
}

#[test]
fn reported_line_numbers_increase() {
    let kw = builtins();
    let text = "テ\nplain\nテ\nplain\n\nテ";
    let m = scan_collect(text, &[Lang::Ja], &kw, MatchMode::Matched);
    let u = scan_collect(text, &[Lang::Ja], &kw, MatchMode::Unmatched);
    let mn: Vec<usize> = m.iter().map(|h| h.line_no).collect();
    let un: Vec<usize> = u.iter().map(|h| h.line_no).collect();
    assert_eq!(mn, vec![1, 3, 6]);
    assert_eq!(un, vec![2, 4, 5]);
}
