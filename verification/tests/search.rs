use webwiki::search::{
    is_page, match_lines, search_page, search_wiki, PageText, SearchParams, MAX_MATCHES,
};

#[test]
fn pages_end_in_md() {
    assert!(is_page("a.md"));
    assert!(is_page("notes.tar.md"));
    assert!(is_page("..md"));
    assert!(!is_page(".md"));
    assert!(!is_page("md"));
    assert!(!is_page("c.txt"));
    assert!(!is_page("a.MD"));
    assert!(!is_page("a.md "));
    assert!(!is_page("amd"));
    assert!(!is_page(""));
}

fn page(name: &str, content: &str) -> PageText {
    PageText { name: name.to_string(), path: name.to_string(), content: content.to_string() }
}

#[test]
fn test_search() {
    let files = vec![
        page("a.md", "hello world"),
        page("b.md", "goodbye world"),
        page("c.txt", "hello world"), // Should be ignored
    ];
    let params = SearchParams { q: "hello".to_string() };
    let results = search_wiki(&files, &params.q);
    assert_eq!(results.len(), 1);
    assert_eq!(results[0].path, "a.md");
    assert!(results[0].matches[0].contains("hello"));
    assert_eq!(results[0].volume, None);
}

#[test]
fn search_keeps_the_order_of_the_files() {
    let files = vec![
        PageText {
            name: "z.md".to_string(),
            path: "notes/z.md".to_string(),
            content: "one\nTwo words\nthree\nfour words\nwords\nmore words".to_string(),
        },
        page("skip.md", "nothing here"),
        page(".md", "words"),
        page("a.md", "  words  "),
    ];
    let results = search_wiki(&files, "WORDS");
    let found: Vec<(&str, Vec<&str>)> = results
        .iter()
        .map(|r| (r.path.as_str(), r.matches.iter().map(|m| m.as_str()).collect()))
        .collect();
    assert_eq!(
        found,
        vec![
            ("notes/z.md", vec!["Two words", "four words", "words"]),
            ("a.md", vec!["words"])
        ]
    );
    assert!(search_wiki(&Vec::new(), "words").is_empty());
}

#[test]
fn matching_sets_case_aside() {
    assert_eq!(match_lines("Hello World", "hello"), vec!["Hello World"]);
    assert_eq!(match_lines("hello world", "HELLO"), vec!["hello world"]);
    assert_eq!(match_lines("ÄPFEL und Birnen", "äpfel"), vec!["ÄPFEL und Birnen"]);
    assert!(match_lines("hello world", "bye").is_empty());
}

#[test]
fn at_most_three_lines_are_shown() {
    assert_eq!(MAX_MATCHES, 3);
    let content = "x 1\nnothing\nx 2\nx 3\nx 4\nx 5";
    assert_eq!(match_lines(content, "x"), vec!["x 1", "x 2", "x 3"]);
}

#[test]
fn shown_lines_are_trimmed() {
    let content = "   indented hit  \n\ttabbed hit\t\r\nmiss\n";
    assert_eq!(match_lines(content, "hit"), vec!["indented hit", "tabbed hit"]);
}

#[test]
fn lines_end_at_line_feeds() {
    assert_eq!(match_lines("a\nb\n", ""), vec!["a", "b"]);
    assert_eq!(match_lines("a\n\nb", ""), vec!["a", "", "b"]);
    assert_eq!(match_lines("a\r\nb", "a"), vec!["a"]);
    assert!(match_lines("", "").is_empty());
    assert_eq!(match_lines("\n", ""), vec![""]);
    // A hit may not reach over a line feed.
    assert!(match_lines("ab\ncd", "b\nc").is_empty());
    // A carriage return before the line feed is no part of the line.
    assert!(match_lines("ab\r\ncd", "b\r").is_empty());
    assert_eq!(match_lines("ab\rcd\n", "b\rc"), vec!["ab\rcd"]);
    assert_eq!(match_lines("ab\r", "b\r"), vec!["ab"]);
}

#[test]
fn a_page_without_a_hit_is_no_result() {
    assert!(search_page("a.md".to_string(), "goodbye world", "hello").is_none());
    let found = search_page("dir/a.md".to_string(), "one\ntwo hello\n", "hello").unwrap();
    assert_eq!(found.path, "dir/a.md");
    assert_eq!(found.matches, vec!["two hello"]);
}
