use yt_transcript_rs::captions_extractor::CaptionsExtractor;
use yt_transcript_rs::errors::CouldNotRetrieveTranscriptReason as R;
use yt_transcript_rs::playability_asserter::PlayabilityAsserter;
use yt_transcript_rs::video_data_fetcher::{extract_captions_json, transcript_list_from_page, video_details_from_page};
use yt_transcript_rs::video_details_extractor::VideoDetailsExtractor;

fn j(text: &str) -> serde_json::Value {
    serde_json::from_str(text).unwrap()
}

#[test]
fn playability_ok() {
    let v = j(r#"{"playabilityStatus": {"status": "OK"}}"#);
    assert!(PlayabilityAsserter::assert_playability(&v, "vid").is_ok());
}

#[test]
fn playability_age_restricted() {
    let v = j(r#"{"playabilityStatus": {"status": "LOGIN_REQUIRED", "reason": "Sign in to confirm your age"}}"#);
    let e = PlayabilityAsserter::assert_playability(&v, "vid").err().unwrap();
    assert_eq!(e.video_id, "vid");
    assert!(matches!(e.reason, Some(R::AgeRestricted)));
}

#[test]
fn playability_login_required_other_reason() {
    let v = j(r#"{"playabilityStatus": {"status": "LOGIN_REQUIRED", "reason": "Private video",
        "errorScreen": {"playerErrorMessageRenderer": {"subreason": {"runs": [{"text": "a"}, {"x": 1}, {"text": "b"}]}}}}}"#);
    let e = PlayabilityAsserter::assert_playability(&v, "vid").err().unwrap();
    match e.reason {
        Some(R::VideoUnplayable { reason, sub_reasons }) => {
            assert_eq!(reason, Some("Private video".to_string()));
            assert_eq!(sub_reasons, vec!["a".to_string(), "b".to_string()]);
        },
        _ => panic!("wrong reason"),
    }
}

#[test]
fn playability_unavailable() {
    let v = j(r#"{"playabilityStatus": {"status": "ERROR", "reason": "Video unavailable"}}"#);
    let e = PlayabilityAsserter::assert_playability(&v, "vid").err().unwrap();
    assert!(matches!(e.reason, Some(R::VideoUnavailable)));
}

#[test]
fn playability_missing_status_is_error() {
    let v = j(r#"{}"#);
    let e = PlayabilityAsserter::assert_playability(&v, "vid").err().unwrap();
    match e.reason {
        Some(R::VideoUnplayable { reason, sub_reasons }) => {
            assert_eq!(reason, Some(String::new()));
            assert!(sub_reasons.is_empty());
        },
        _ => panic!("wrong reason"),
    }
}

#[test]
fn captions_present_and_missing() {
    let v = j(r#"{"captions": {"playerCaptionsTracklistRenderer": {"captionTracks": []}}}"#);
    let c = CaptionsExtractor::extract_captions_data(&v, "vid").ok().unwrap();
    assert_eq!(c, j(r#"{"captionTracks": []}"#));
    let v2 = j(r#"{"captions": {}}"#);
    let e = CaptionsExtractor::extract_captions_data(&v2, "vid").err().unwrap();
    assert!(matches!(e.reason, Some(R::TranscriptsDisabled)));
    let e = CaptionsExtractor::extract_captions_data(&j("{}"), "vid").err().unwrap();
    assert!(matches!(e.reason, Some(R::TranscriptsDisabled)));
}

#[test]
fn video_details_full() {
    let v = j(r#"{"videoDetails": {
        "videoId": "dQw4w9WgXcQ",
        "title": "Rick Astley - Never Gonna Give You Up",
        "lengthSeconds": "212",
        "author": "Rick Astley",
        "channelId": "UCuAXFkgsw1L7xaCfnd5JJOw",
        "shortDescription": "desc",
        "viewCount": "1234567890",
        "keywords": ["a", 3, "b"],
        "isLiveContent": true,
        "thumbnail": {"thumbnails": [
            {"url": "https://i.ytimg.com/vi/dQw4w9WgXcQ/default.jpg", "width": 120, "height": 90},
            {"url": "no size"},
            {"url": "big", "width": 4294967297, "height": 720}
        ]}
    }}"#);
    let d = VideoDetailsExtractor::extract_video_details(&v, "other").ok().unwrap();
    assert_eq!(d.video_id, "dQw4w9WgXcQ");
    assert_eq!(d.title, "Rick Astley - Never Gonna Give You Up");
    assert_eq!(d.length_seconds, 212);
    assert_eq!(d.author, "Rick Astley");
    assert_eq!(d.channel_id, "UCuAXFkgsw1L7xaCfnd5JJOw");
    assert_eq!(d.short_description, "desc");
    assert_eq!(d.view_count, "1234567890");
    assert_eq!(d.keywords, Some(vec!["a".to_string(), "b".to_string()]));
    assert!(d.is_live_content);
    assert_eq!(d.thumbnails.len(), 2);
    assert_eq!(d.thumbnails[0].width, 120);
    assert_eq!(d.thumbnails[0].height, 90);
    // 4294967297 is cut to 32 bits.
    assert_eq!(d.thumbnails[1].width, 1);
}

#[test]
fn video_details_defaults() {
    let v = j(r#"{"videoDetails": {"lengthSeconds": "+12x"}}"#);
    let d = VideoDetailsExtractor::extract_video_details(&v, "vid").ok().unwrap();
    assert_eq!(d.video_id, "vid");
    assert_eq!(d.title, "Unknown Title");
    assert_eq!(d.length_seconds, 0);
    assert_eq!(d.keywords, None);
    assert_eq!(d.channel_id, "");
    assert_eq!(d.short_description, "");
    assert_eq!(d.view_count, "0");
    assert_eq!(d.author, "Unknown");
    assert!(d.thumbnails.is_empty());
    assert!(!d.is_live_content);
    let v = j(r#"{"videoDetails": {"lengthSeconds": "+12"}}"#);
    assert_eq!(VideoDetailsExtractor::extract_video_details(&v, "vid").ok().unwrap().length_seconds, 12);
    let v = j(r#"{"videoDetails": {"lengthSeconds": "4294967296"}}"#);
    assert_eq!(VideoDetailsExtractor::extract_video_details(&v, "vid").ok().unwrap().length_seconds, 0);
    let v = j(r#"{"videoDetails": {"lengthSeconds": "4294967295"}}"#);
    assert_eq!(VideoDetailsExtractor::extract_video_details(&v, "vid").ok().unwrap().length_seconds, 4294967295);
}

#[test]
fn video_details_missing_is_unparsable() {
    let e = VideoDetailsExtractor::extract_video_details(&j("{}"), "vid").err().unwrap();
    assert!(matches!(e.reason, Some(R::YouTubeDataUnparsable)));
}

const PAGE: &str = r#"<html><script>var ytInitialPlayerResponse = {"playabilityStatus": {"status": "OK"},
"videoDetails": {"videoId": "abc", "title": "T"},
"captions": {"playerCaptionsTracklistRenderer": {"captionTracks": [
 {"baseUrl": "https://x/en", "name": {"simpleText": "English"}, "languageCode": "en"}]}}};</script></html>"#;

#[test]
fn page_gives_list_and_details() {
    let list = transcript_list_from_page(PAGE, "abc").ok().unwrap();
    assert_eq!(list.manually_created_transcripts.len(), 1);
    assert_eq!(list.find_transcript(&["en"]).ok().unwrap().url(), "https://x/en");
    let d = video_details_from_page(PAGE, "abc").ok().unwrap();
    assert_eq!(d.title, "T");
    let c = extract_captions_json(PAGE, "abc").ok().unwrap();
    assert!(c.get("captionTracks").is_some());
}

#[test]
fn page_without_player_response() {
    let e = transcript_list_from_page("<html></html>", "abc").err().unwrap();
    assert!(matches!(e.reason, Some(R::YouTubeDataUnparsable)));
    let e = video_details_from_page("<html></html>", "abc").err().unwrap();
    assert!(matches!(e.reason, Some(R::YouTubeDataUnparsable)));
}

#[test]
fn page_of_unplayable_video() {
    let page = r#"var ytInitialPlayerResponse = {"playabilityStatus": {"status": "ERROR", "reason": "Video unavailable"}};"#;
    let e = transcript_list_from_page(page, "abc").err().unwrap();
    assert!(matches!(e.reason, Some(R::VideoUnavailable)));
}
