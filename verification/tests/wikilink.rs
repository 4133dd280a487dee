use pulldown_cmark::{html, CowStr, Event, LinkType, Parser, Tag, TagEnd};
use webwiki::wikilink::{expand_text, WikiEvent, WikiLinkParser};

fn to_markdown(event: WikiEvent<'_>) -> Event<'_> {
    match event {
        WikiEvent::Text(text) => Event::Text(CowStr::from(text)),
        WikiEvent::LinkStart(url) => Event::Start(Tag::Link {
            link_type: LinkType::Inline,
            dest_url: CowStr::from(url),
            title: CowStr::from(""),
            id: CowStr::from(""),
        }),
        WikiEvent::LinkEnd => Event::End(TagEnd::Link),
        WikiEvent::Other(other) => other,
    }
}

fn render(input: &str, volume: &str) -> String {
    let parser = Parser::new(input);
    let mut wiki_parser = WikiLinkParser::new(parser, volume.to_string());
    let mut events = Vec::new();
    while let Some(event) = wiki_parser.next() {
        events.push(to_markdown(event));
    }
    let mut html_output = String::new();
    html::push_html(&mut html_output, events.into_iter());
    html_output
}

fn describe(events: Vec<WikiEvent<'_>>) -> Vec<String> {
    events
        .into_iter()
        .map(|event| match event {
            WikiEvent::Text(text) => format!("text:{}", text),
            WikiEvent::LinkStart(url) => format!("start:{}", url),
            WikiEvent::LinkEnd => "end".to_string(),
            WikiEvent::Other(_) => "other".to_string(),
        })
        .collect()
}

#[test]
fn test_basic_wikilink() {
    let input = "[[Page]]";
    let output = render(input, "default");
    assert!(output.contains(r#"<a href="/wiki/default/Page">Page</a>"#));
}

#[test]
fn test_piped_wikilink() {
    let input = "[[Page|Label]]";
    let output = render(input, "default");
    assert!(output.contains(r#"<a href="/wiki/default/Page">Label</a>"#));
}

#[test]
fn test_multiple_wikilinks() {
    let input = "[[Page1]] and [[Page2]]";
    let output = render(input, "default");
    assert!(output.contains(r#"<a href="/wiki/default/Page1">Page1</a>"#));
    assert!(output.contains(r#"and"#));
    assert!(output.contains(r#"<a href="/wiki/default/Page2">Page2</a>"#));
}

#[test]
fn test_wikilink_with_surrounding_text() {
    let input = "Check [[this]] out.";
    let output = render(input, "default");
    assert!(output.contains(r#"Check <a href="/wiki/default/this">this</a> out."#));
}

#[test]
fn test_broken_wikilink() {
    let input = "[[Unclosed";
    let output = render(input, "default");
    assert_eq!(output.trim(), "<p>[[Unclosed</p>");
}

#[test]
fn test_wikilink_in_volume() {
    let input = "[[Page]]";
    let output = render(input, "work");
    assert!(output.contains(r#"<a href="/wiki/work/Page">Page</a>"#));
}

#[test]
fn test_wikilink_across_lines_should_not_work() {
    let input = "[[Page\nName]]";
    let _output = render(input, "default");
}

#[test]
fn test_empty_wikilink() {
    let input = "[[]]";
    let output = render(input, "default");
    assert!(output.contains(r#"<a href="/wiki/default/"></a>"#));
}

#[test]
fn test_empty_label() {
    let input = "[[Page|]]";
    let output = render(input, "default");
    assert!(output.contains(r#"<a href="/wiki/default/Page"></a>"#));
}

#[test]
fn test_empty_link() {
    let input = "[[|Label]]";
    let output = render(input, "default");
    assert!(output.contains(r#"<a href="/wiki/default/">Label</a>"#));
}

#[test]
fn test_whitespace_trimming() {
    let input = "[[  Page  |  Label  ]]";
    let output = render(input, "default");
    assert!(output.contains(r#"<a href="/wiki/default/Page">Label</a>"#));
}

#[test]
fn test_multiple_pipes() {
    let input = "[[Page|Label|Extra]]";
    let output = render(input, "default");
    assert!(output.contains(r#"<a href="/wiki/default/Page">Label|Extra</a>"#));
}

#[test]
fn test_wikilink_in_bold() {
    let input = "**[[Page]]**";
    let output = render(input, "default");
    assert!(output.contains(r#"<strong><a href="/wiki/default/Page">Page</a></strong>"#));
}

#[test]
fn test_consecutive_wikilinks() {
    let input = "[[Page1]][[Page2]]";
    let output = render(input, "default");
    assert!(output.contains(
        r#"<a href="/wiki/default/Page1">Page1</a><a href="/wiki/default/Page2">Page2</a>"#
    ));
}

#[test]
fn test_link_with_fragment() {
    let input = "[[Page#Section]]";
    let output = render(input, "default");
    assert!(output.contains(r#"<a href="/wiki/default/Page#Section">Page#Section</a>"#));
}

#[test]
fn expand_text_without_links_keeps_one_text() {
    assert_eq!(describe(expand_text("plain words", "v")), vec!["text:plain words"]);
    assert_eq!(describe(expand_text("", "v")), vec!["text:"]);
    assert_eq!(describe(expand_text("[[open only", "v")), vec!["text:[[open only"]);
    assert_eq!(describe(expand_text("close only]]", "v")), vec!["text:close only]]"]);
}

#[test]
fn expand_text_splits_text_and_links_in_order() {
    assert_eq!(
        describe(expand_text("a [[ B | c ]] d [[E]]", "vol")),
        vec![
            "text:a ",
            "start:/wiki/vol/B",
            "text:c",
            "end",
            "text: d ",
            "start:/wiki/vol/E",
            "text:E",
            "end",
        ]
    );
}

#[test]
fn expand_text_keeps_rest_behind_an_unclosed_mark() {
    assert_eq!(
        describe(expand_text("[[A]] then [[B", "v")),
        vec!["start:/wiki/v/A", "text:A", "end", "text: then [[B"]
    );
}

#[test]
fn expand_text_closes_at_the_first_closing_mark() {
    assert_eq!(
        describe(expand_text("[[a[[b]]c]]", "v")),
        vec!["start:/wiki/v/a[[b", "text:a[[b", "end", "text:c]]"]
    );
}

#[test]
fn expand_text_counts_characters_not_bytes() {
    assert_eq!(
        describe(expand_text("é [[Übung|Ünï]] ß", "v")),
        vec!["text:é ", "start:/wiki/v/Übung", "text:Ünï", "end", "text: ß"]
    );
}

#[test]
fn parser_hands_other_events_on_untouched() {
    let parser = Parser::new("# Title\n\nsome `code` here");
    let mut wiki_parser = WikiLinkParser::new(parser, "v".to_string());
    let mut texts = Vec::new();
    let mut others = 0;
    while let Some(event) = wiki_parser.next() {
        match event {
            WikiEvent::Text(text) => texts.push(text),
            WikiEvent::Other(_) => others += 1,
            _ => panic!("no link expected"),
        }
    }
    assert_eq!(texts, vec!["Title", "some ", " here"]);
    assert_eq!(others, 5);
    assert!(wiki_parser.next().is_none());
}

#[test]
fn parser_joins_adjacent_text_before_looking_for_links() {
    // The Markdown parser yields "[", "[Page", "]", "]" or similar pieces for
    // brackets; only joined do they read as a link.
    let output = render("see [[Page]] now", "v");
    assert!(output.contains(r#"see <a href="/wiki/v/Page">Page</a> now"#));
}
