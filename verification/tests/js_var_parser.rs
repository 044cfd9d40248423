use serde_json::Value;
use yt_transcript_rs::js_var_parser::JsVarParser;

fn s(v: &str) -> Value {
    Value::String(v.to_string())
}

#[test]
fn test_js_var_parser() {
    let parser = JsVarParser::new("testVar");

    let html = r#"
    <!DOCTYPE html>
    <html>
    <head><title>Test Page</title></head>
    <body>
        <script>
        var testVar = {"key1": "value1", "key2": {"nested": "value2"}, "array": [1, 2, 3]};
        </script>
    </body>
    </html>
    "#;

    let result = parser.parse(html, "test").ok().unwrap();

    assert_eq!(result["key1"], s("value1"));
    assert_eq!(result["key2"]["nested"], s("value2"));
    assert_eq!(result["array"], Value::Array(vec![Value::from(1), Value::from(2), Value::from(3)]));
}

#[test]
fn test_js_var_parser_with_complex_json() {
    let parser = JsVarParser::new("complexVar");

    let html = r#"
    <!DOCTYPE html>
    <html>
    <head><title>Test Page</title></head>
    <body>
        <script>
        var complexVar = {
            "text": "This has \"quotes\" inside",
            "nested": {
                "object": {"with": "more nesting"},
                "array": [{"item1": 1}, {"item2": 2}]
            },
            "escaped": "Line1\nLine2\\nLine3"
        };
        </script>
    </body>
    </html>
    "#;

    let result = parser.parse(html, "test").ok().unwrap();

    assert_eq!(result["text"], s("This has \"quotes\" inside"));
    assert_eq!(result["nested"]["object"]["with"], s("more nesting"));
    assert_eq!(result["nested"]["array"][0]["item1"], Value::from(1));
    assert_eq!(result["nested"]["array"][1]["item2"], Value::from(2));
    assert_eq!(result["escaped"], s("Line1\nLine2\\nLine3"));
}

#[test]
fn test_js_var_parser_with_alternate_format() {
    let parser = JsVarParser::new("altVar");

    let html = r#"
    <!DOCTYPE html>
    <html>
    <body>
        <script>
        altVar={"simple": "value"};
        doSomething();
        </script>
    </body>
    </html>
    "#;

    let result = parser.parse(html, "test").ok().unwrap();

    assert_eq!(result["simple"], s("value"));
}

#[test]
fn js_var_parser_braces_inside_strings_do_not_count() {
    let parser = JsVarParser::new("v");
    let html = r#"<script>var v = {"a": "}{", "b": {"c": "\"}"}};</script>"#;
    let result = parser.parse(html, "vid").ok().unwrap();
    assert_eq!(result["a"], s("}{"));
    assert_eq!(result["b"]["c"], s("\"}"));
}

#[test]
fn js_var_parser_missing_variable_is_unparsable() {
    let parser = JsVarParser::new("nothere");
    let err = parser.parse("<html><script>var other = {\"a\": 1};</script></html>", "vid42").err().unwrap();
    assert_eq!(err.video_id, "vid42");
    assert!(matches!(
        err.reason,
        Some(yt_transcript_rs::errors::CouldNotRetrieveTranscriptReason::YouTubeDataUnparsable)
    ));
}

#[test]
fn js_var_parser_unclosed_object_falls_back_to_patterns() {
    let parser = JsVarParser::new("x");
    // The scan finds an unclosed object; the `x = (.*?);` pattern finds `{"k": 5}`.
    let html = "var x = {\"k\": 5};</script> trailing {";
    let result = parser.parse(html, "vid").ok().unwrap();
    assert_eq!(result["k"], Value::from(5));
    let html2 = "var y = {\"k\": 5";
    let p2 = JsVarParser::new("y");
    assert!(p2.parse(html2, "vid").is_err());
}

#[test]
fn js_var_parser_takes_text_up_to_next_declaration() {
    // The scan only looks between the first `var name` and the next one.
    let parser = JsVarParser::new("d");
    let html = "var d = 1; var d = {\"second\": true};";
    let result = parser.parse(html, "vid").ok().unwrap();
    // The first segment (" = 1; ") has no object; the regex fallback
    // `d = (.*?);` gives `1`.
    assert_eq!(result, Value::from(1));
}

#[test]
fn regex_escape_escapes_meta_characters() {
    assert_eq!(yt_transcript_rs::pattern::regex_escape("a.b*c"), "a\\.b\\*c");
    assert_eq!(yt_transcript_rs::pattern::regex_escape("ytInitialPlayerResponse"), "ytInitialPlayerResponse");
    assert_eq!(yt_transcript_rs::pattern::regex_escape("-~&#"), "\\-\\~\\&\\#");
}
