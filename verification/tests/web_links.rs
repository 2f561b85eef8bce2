use novel_reader::web::{archive_url_for_title, build_search_url, chapter_entries, search_entries};

#[test]
fn search_url_joins_words_with_plus() {
    assert_eq!(
        build_search_url("Lord of Mysteries"),
        "https://novelbin.me/search?keyword=Lord+of+Mysteries"
    );
    assert_eq!(
        build_search_url("  spaced   out  "),
        "https://novelbin.me/search?keyword=spaced+out"
    );
    assert_eq!(build_search_url(""), "https://novelbin.me/search?keyword=");
}

#[test]
fn unicode_whitespace_collapses_in_the_search_url() {
    assert_eq!(
        build_search_url("a\u{00A0}b"),
        "https://novelbin.me/search?keyword=a+b"
    );
}

#[test]
fn a_no_break_space_title_is_dropped() {
    let (titles, links) = search_entries(&vec!["\u{00A0}".to_string()]);
    assert!(titles.is_empty());
    assert!(links.is_empty());
}

#[test]
fn archive_url_lowercases_and_slugs_the_title() {
    // The uppercase letters must come back lowered, the listed punctuation
    // dropped, and spaces dashed.
    assert_eq!(
        archive_url_for_title("Hello World (2)"),
        "https://novelbin.me/ajax/chapter-archive?novelId=hello-world-2"
    );
    assert_eq!(
        archive_url_for_title("Re:Zero"),
        "https://novelbin.me/ajax/chapter-archive?novelId=rezero"
    );
}

#[test]
fn search_entries_trim_and_drop_empties() {
    let raw = vec![
        "  Foo  ".to_string(),
        "".to_string(),
        "  ".to_string(),
        "Bar Baz".to_string(),
    ];
    let (titles, links) = search_entries(&raw);
    assert_eq!(titles, vec!["Foo", "Bar Baz"]);
    assert_eq!(
        links,
        vec![
            "https://novelbin.me/ajax/chapter-archive?novelId=foo",
            "https://novelbin.me/ajax/chapter-archive?novelId=bar-baz",
        ]
    );
}

#[test]
fn chapter_entries_keep_labels_and_links_aligned() {
    let labels = vec![
        " Chapter 1 ".to_string(),
        "  ".to_string(),
        "Chapter 2".to_string(),
    ];
    let links = vec![
        "https://example.invalid/1".to_string(),
        "https://example.invalid/skip".to_string(),
        "https://example.invalid/2".to_string(),
    ];
    let (kept_labels, kept_links) = chapter_entries(&labels, &links);
    assert_eq!(kept_labels, vec!["Chapter 1", "Chapter 2"]);
    assert_eq!(
        kept_links,
        vec!["https://example.invalid/1", "https://example.invalid/2"]
    );
}
