use novel_reader::content::{join_paragraphs, split_chapter_heading, strip_trailing};
use novel_reader::text::{decimal_digits, split_lines, split_words, trim_spaces, wrap_line_to};

#[test]
fn paragraphs_join_with_blank_lines() {
    let paragraphs = vec!["A".to_string(), "B".to_string(), "C".to_string()];
    assert_eq!(join_paragraphs(&paragraphs), "A\n\nB\n\nC");
}

#[test]
fn no_paragraphs_join_to_nothing() {
    assert_eq!(join_paragraphs(&Vec::new()), "");
    assert_eq!(join_paragraphs(&vec!["only".to_string()]), "only");
}

#[test]
fn words_split_on_any_whitespace_run() {
    assert_eq!(split_words("  hello \t world \n"), vec!["hello", "world"]);
    assert_eq!(split_words("one"), vec!["one"]);
    assert!(split_words("   ").is_empty());
    assert!(split_words("").is_empty());
}

#[test]
fn trim_takes_only_the_edges() {
    assert_eq!(trim_spaces("  a b\t"), "a b");
    assert_eq!(trim_spaces("clean"), "clean");
    assert_eq!(trim_spaces(" \n "), "");
}

#[test]
fn unicode_whitespace_counts_as_whitespace() {
    assert_eq!(trim_spaces("\u{00A0}"), "");
    assert_eq!(trim_spaces("\u{2003}a\u{00A0}"), "a");
    assert_eq!(split_words("a\u{00A0}b"), vec!["a", "b"]);
    assert_eq!(split_words("\u{3000}one\u{2028}two\u{3000}"), vec!["one", "two"]);
}

#[test]
fn lines_split_keeps_empties() {
    assert_eq!(split_lines("a\n\nb"), vec!["a", "", "b"]);
    assert_eq!(split_lines("a\n"), vec!["a", ""]);
    assert_eq!(split_lines(""), vec![""]);
}

#[test]
fn wrap_breaks_after_a_word() {
    assert_eq!(wrap_line_to("hello world", 6), vec!["hello ", "world"]);
    assert_eq!(wrap_line_to("hello world", 11), vec!["hello world"]);
}

#[test]
fn wrap_splits_an_unbroken_word_hard() {
    assert_eq!(wrap_line_to("abcdefgh", 3), vec!["abc", "def", "gh"]);
}

#[test]
fn wrap_loses_no_character() {
    let text = "the quick brown fox jumps over the lazy dog";
    for w in 1..20 {
        let pieces = wrap_line_to(text, w);
        assert_eq!(pieces.concat(), text);
        assert!(pieces.iter().all(|p| p.chars().count() <= w));
    }
}

#[test]
fn trailing_paragraphs_are_stripped() {
    let paragraphs: Vec<String> =
        ["a", "b", "c", "d"].iter().map(|s| s.to_string()).collect();
    assert_eq!(strip_trailing(paragraphs, 3), vec!["a"]);
    let short: Vec<String> = vec!["a".to_string(), "b".to_string()];
    assert!(strip_trailing(short, 3).is_empty());
    let keep_all: Vec<String> = vec!["a".to_string(), "b".to_string()];
    assert_eq!(strip_trailing(keep_all, 0), vec!["a", "b"]);
}

#[test]
fn chapter_heading_splits_into_number_and_name() {
    let (number, name) = split_chapter_heading("Chapter 12 The Fall");
    assert_eq!(number, "12");
    assert_eq!(name, "The Fall");
    let (number, name) = split_chapter_heading("Chapter 3");
    assert_eq!(number, "3");
    assert_eq!(name, "");
    let (number, name) = split_chapter_heading("Prologue");
    assert_eq!(number, "");
    assert_eq!(name, "");
}

#[test]
fn decimal_digits_render_most_significant_first() {
    assert_eq!(decimal_digits(100), vec!['1', '0', '0']);
    assert_eq!(decimal_digits(0), vec!['0']);
    assert_eq!(decimal_digits(9999), vec!['9', '9', '9', '9']);
}
