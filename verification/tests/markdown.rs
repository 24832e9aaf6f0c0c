use md_dir_builder::builder::BuiltFile;
use md_dir_builder::markdown::cache::CacheMarkdown;
use md_dir_builder::markdown::commonmark::MarkdownOptions;
use md_dir_builder::markdown::{CommonMarkParser, MarkdownParser, PandocParser, ParserType};
use md_dir_builder::text::{count_of, count_words, is_whitespace};

#[test]
fn commonmark_renders_headings_and_paragraphs() {
    let mut parser = CommonMarkParser::default();
    assert_eq!("<h1>README</h1>\n", parser.parse_to_html("# README"));
    assert_eq!("<p>plain</p>\n", parser.parse_to_html("plain"));
    assert_eq!("", parser.parse_to_html(""));
}

#[test]
fn commonmark_renders_the_three_extensions() {
    let mut parser = CommonMarkParser::default();
    assert_eq!("<p><del>gone</del></p>\n", parser.parse_to_html("~~gone~~"));
    let table = parser.parse_to_html("| a | b |\n|---|---|\n| 1 | 2 |\n");
    assert!(table.starts_with("<table>"), "{}", table);
    let footnote = parser.parse_to_html("text[^1]\n\n[^1]: note\n");
    assert!(footnote.contains("footnote-definition"), "{}", footnote);
    let tasks = parser.parse_to_html("- [ ] open\n");
    assert!(!tasks.contains("checkbox"), "{}", tasks);
}

#[test]
fn create_options_switches_three_extensions_on() {
    assert_eq!(
        MarkdownOptions { tables: true, footnotes: true, strikethrough: true },
        CommonMarkParser::create_options()
    );
}

#[test]
fn render_counts_the_words_of_the_source() {
    let file = BuiltFile::render("# A heading\n\nwith *five* words");
    assert_eq!("<h1>A heading</h1>\n<p>with <em>five</em> words</p>\n", file.contents);
    assert_eq!(6, file.word_count);
    assert_eq!(file, file.clone());
}

#[test]
fn count_words_counts_runs_between_white_space() {
    assert_eq!(0, count_words(""));
    assert_eq!(0, count_words(" \t\n"));
    assert_eq!(1, count_words("word"));
    assert_eq!(2, count_words("  two\twords\n"));
    assert_eq!(3, count_words("a\u{a0}b\u{2003}c"));
    assert_eq!(1, count_words("a\u{200b}b"));
}

#[test]
fn is_whitespace_agrees_with_the_standard_library() {
    for code in 0u32..0x3100 {
        if let Some(c) = char::from_u32(code) {
            assert_eq!(c.is_whitespace(), is_whitespace(c), "U+{:04X}", code);
        }
    }
}

#[test]
fn count_of_counts_a_character() {
    assert_eq!(0, count_of("", '/'));
    assert_eq!(0, count_of("a.md", '/'));
    assert_eq!(3, count_of("/d/e/f.md", '/'));
    assert_eq!(2, count_of("ä/ö/ü", '/'));
}

#[test]
fn cache_records_each_rendering() {
    let mut cache = CacheMarkdown::new(CommonMarkParser::default());
    assert_eq!(None, cache.lookup("# a"));
    assert_eq!("<h1>a</h1>\n", cache.parse_to_html("# a"));
    assert_eq!(Some(&"<h1>a</h1>\n".to_string()), cache.lookup("# a"));
    assert_eq!(None, cache.lookup("# b"));
    assert_eq!("<h1>b</h1>\n", cache.parse_to_html("# b"));
    assert_eq!("<h1>a</h1>\n", cache.parse_to_html("# a"));
    assert_eq!(Some(&"<h1>b</h1>\n".to_string()), cache.lookup("# b"));
}

#[test]
fn pandoc_is_run_on_standard_input_and_output() {
    let pandoc = PandocParser::default();
    assert_eq!("pandoc", pandoc.program());
    assert_eq!(vec!["-f", "markdown", "-t", "html5", "-", "-o", "-"], pandoc.arguments());
    assert_eq!("<p>x</p>", pandoc.finish(Some("<p>x</p>".to_string())));
    assert_eq!("Parsing markdown with pandoc failed", pandoc.finish(None));
}

#[test]
fn parser_types_are_told_apart() {
    assert_ne!(ParserType::CommonMark, ParserType::Pandoc);
    assert!(ParserType::CommonMark < ParserType::Pandoc);
}
