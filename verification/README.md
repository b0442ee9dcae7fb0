# langscan

Finds uncommon scripts and language hints (CJK, Cyrillic, Hangul, Arabic,
Persian, Urdu, Hebrew, Devanagari, Greek, Thai, Turkish, Polish, Ukrainian,
Vietnamese and Chinese/Korean regional variants) in lines of text.

The detection logic is a Verus-verified library:

- `src/lang/` – the languages, their labels and names, the per-script
  character predicates, the marker data and the keyword hints.
- `src/scanner/` – the scan plan and per-line script flags, the matching of
  languages against a line, the label order, the highlighting and the
  line-by-line scan of a text.
- `src/output.rs` – summaries of scan results, the per-file and per-line
  records of the serialized formats, the text output line and the count table.
- `src/text.rs` – character-level helpers on strings.

`app/` is the command-line front end (argument parsing, file and directory
reading, parallel scanning of files, JSON/YAML serialization and printing).

The Chinese marker tables in `src/lang/markers.rs` (`cn` and `tw`) are a
reduced, hand-picked set of common characters whose simplified and traditional
forms differ and that Japanese does not write in the same form (Joyo kanji are
left out). They are not the full variant sets of the Unicode Unihan data, so
many rarer simplified or traditional characters are not markers. The regional
Korean keyword lists are likewise short hand-picked lists.
