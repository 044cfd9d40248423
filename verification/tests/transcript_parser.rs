use yt_transcript_rs::transcript_parser::TranscriptParser;

#[test]
fn parses_text_elements() {
    let parser = TranscriptParser::try_new(false).unwrap();
    let xml = r#"<?xml version="1.0" encoding="utf-8" ?><transcript><text start="0.5" dur="2.1">Hello &amp;amp; &lt;b&gt;world&lt;/b&gt;</text><other start="9"/><text start="3" dur="1">second</text><text>no times</text></transcript>"#;
    let snippets = parser.parse(xml).ok().unwrap();
    assert_eq!(snippets.len(), 3);
    assert_eq!(snippets[0].text, "Hello & world");
    assert_eq!(snippets[0].start, Some("0.5".to_string()));
    assert_eq!(snippets[0].duration, Some("2.1".to_string()));
    assert_eq!(snippets[1].text, "second");
    assert_eq!(snippets[2].text, "no times");
    assert_eq!(snippets[2].start, None);
    assert_eq!(snippets[2].duration, None);
}

#[test]
fn empty_text_element() {
    let parser = TranscriptParser::new(false);
    let snippets = parser.parse("<transcript><text start=\"1\" dur=\"2\"/></transcript>").ok().unwrap();
    assert_eq!(snippets.len(), 1);
    assert_eq!(snippets[0].text, "");
}

#[test]
fn invalid_xml_is_an_error() {
    let parser = TranscriptParser::new(false);
    assert!(parser.parse("<transcript><text>").is_err());
    assert!(parser.parse("not xml at all").is_err());
}

#[test]
fn formatting_tags_are_kept_when_asked() {
    let p = TranscriptParser::try_new(true).unwrap();
    let raw = r#"<transcript><text start="0" dur="1">&lt;b&gt;Hi&lt;/b&gt; &lt;span&gt;x&lt;/span&gt;</text></transcript>"#;
    let s = p.parse(raw).ok().unwrap();
    assert_eq!(s.len(), 1);
    assert_eq!(s[0].text, "<b>Hi</b> x");
    let plain = TranscriptParser::new(false).parse(raw).ok().unwrap();
    assert_eq!(plain[0].text, "Hi x");
}

#[test]
fn nested_markup_is_part_of_the_text() {
    let xml = r#"<?xml version="1.0" encoding="utf-8" ?>
<transcript>
    <text start="12.645" dur="1.37">So in <b>college</b>,</text>
    <text start="16.937" dur="2.462">which means <b>I had to write</b> <i>a lot</i> of <strong>papers</strong><br/>.</text>
</transcript>"#;
    let formatted = TranscriptParser::new(true).parse(xml).ok().unwrap();
    assert_eq!(formatted.len(), 2);
    assert_eq!(formatted[0].text, "So in <b>college</b>,");
    assert_eq!(formatted[1].text, "which means <b>I had to write</b> <i>a lot</i> of <strong>papers</strong>.");
    let plain = TranscriptParser::new(false).parse(xml).ok().unwrap();
    assert_eq!(plain[0].text, "So in college,");
    assert_eq!(plain[1].text, "which means I had to write a lot of papers.");
    assert_eq!(plain[0].start, Some("12.645".to_string()));
}

#[test]
fn formatting_tags_are_listed() {
    assert_eq!(TranscriptParser::FORMATTING_TAGS.len(), 10);
    assert_eq!(TranscriptParser::FORMATTING_TAGS[0], "strong");
}
