use yt_transcript_rs::errors::CouldNotRetrieveTranscriptReason;
use yt_transcript_rs::models::TranslationLanguage;
use yt_transcript_rs::transcript::Transcript;
use yt_transcript_rs::transcript_list::{TranscriptList, TranscriptMap};

const MOCK_VIDEO_ID: &str = "arj7oStGLkU";

fn lang(language: &str, code: &str) -> TranslationLanguage {
    TranslationLanguage { language: language.to_string(), language_code: code.to_string() }
}

fn create_mock_transcript_list() -> TranscriptList {
    let translation_languages = vec![lang("English", "en"), lang("French", "fr")];
    let mut manually_created_transcripts = TranscriptMap::new();
    let english_transcript = Transcript::new(
        MOCK_VIDEO_ID.to_string(),
        "https://mock.youtube.com/transcript/en".to_string(),
        "English".to_string(),
        "en".to_string(),
        false,
        translation_languages.clone(),
    );
    manually_created_transcripts.insert("en".to_string(), english_transcript);
    TranscriptList::new(MOCK_VIDEO_ID.to_string(), manually_created_transcripts, TranscriptMap::new(), translation_languages)
}

fn generated(code: &str, name: &str) -> Transcript {
    Transcript::new(
        MOCK_VIDEO_ID.to_string(),
        format!("https://mock/{}", code),
        name.to_string(),
        code.to_string(),
        true,
        vec![],
    )
}

#[test]
fn mock_api_test_list_transcripts() {
    let transcript_list = create_mock_transcript_list();

    assert_eq!(transcript_list.video_id, MOCK_VIDEO_ID);

    let mut found_transcripts = false;
    for transcript in transcript_list.transcripts() {
        found_transcripts = true;
        assert_eq!(transcript.video_id(), MOCK_VIDEO_ID);
        assert!(!transcript.language_code().is_empty());
        assert!(!transcript.language().is_empty());
    }

    assert!(found_transcripts, "No transcripts found in the list");
}

#[test]
fn mock_api_test_find_transcript() {
    let transcript_list = create_mock_transcript_list();

    let transcript = transcript_list.find_transcript(&["en"]);
    assert!(transcript.is_ok(), "Failed to find English transcript");

    let transcript = transcript_list.find_transcript(&["non-existent", "en"]);
    assert!(transcript.is_ok(), "Failed to find transcript with fallback languages");

    let transcript = transcript_list.find_transcript(&["non-existent"]);
    assert!(transcript.is_err(), "Found a non-existent transcript");
}

#[test]
fn test_translate_transcript() {
    let transcript_list = create_mock_transcript_list();
    let found_translatable = transcript_list
        .manually_created_transcripts
        .values()
        .iter()
        .any(|t| !t.translation_languages().is_empty());
    assert!(found_translatable, "No translatable transcripts found");
}

#[test]
fn test_transcript_formatter() {
    let transcript_list = create_mock_transcript_list();
    let transcript_result = transcript_list.find_transcript(&["en"]);
    assert!(transcript_result.is_ok(), "Failed to find English transcript");
    let transcript = transcript_result.ok().unwrap();
    let transcript_str = transcript.to_display_string();
    assert!(!transcript_str.is_empty());
    assert!(transcript_str.contains("en"));
    assert_eq!(transcript_str, "en (English)[TRANSLATABLE]");
}

#[test]
fn test_transcriptlist_formatter() {
    let transcript_list = create_mock_transcript_list();
    let transcript_list_str = transcript_list.to_display_string();
    assert!(!transcript_list_str.is_empty());
    assert!(transcript_list_str.contains("Available transcripts"));
    assert_eq!(transcript_list_str, "Available transcripts: en (English)[TRANSLATABLE]");
}

#[test]
fn empty_list_display() {
    let l = TranscriptList::new("v".to_string(), TranscriptMap::new(), TranscriptMap::new(), vec![]);
    assert_eq!(l.to_display_string(), "No transcripts found");
    assert!(l.transcripts().is_empty());
}

#[test]
fn manual_transcript_preferred_over_generated() {
    let mut list = create_mock_transcript_list();
    list.generated_transcripts.insert("en".to_string(), generated("en", "English (auto)"));
    list.generated_transcripts.insert("de".to_string(), generated("de", "German (auto)"));
    let t = list.find_transcript(&["en"]).ok().unwrap();
    assert!(!t.is_generated());
    let t = list.find_transcript(&["de", "en"]).ok().unwrap();
    assert_eq!(t.language_code(), "de");
    assert!(t.is_generated());
    let t = list.find_generated_transcript(&["en"]).ok().unwrap();
    assert!(t.is_generated());
    assert_eq!(t.language(), "English (auto)");
    assert!(list.find_manually_created_transcript(&["de"]).is_err());
    assert_eq!(
        list.to_display_string(),
        "Available transcripts: en (English)[TRANSLATABLE], en (English (auto)), de (German (auto))"
    );
}

#[test]
fn not_found_error_carries_codes_and_list() {
    let list = create_mock_transcript_list();
    let err = list.find_transcript(&["xx", "yy"]).err().unwrap();
    assert_eq!(err.video_id, MOCK_VIDEO_ID);
    match err.reason {
        Some(CouldNotRetrieveTranscriptReason::NoTranscriptFound { requested_language_codes, transcript_data }) => {
            assert_eq!(requested_language_codes, vec!["xx".to_string(), "yy".to_string()]);
            assert_eq!(transcript_data.video_id, MOCK_VIDEO_ID);
            assert_eq!(transcript_data.manually_created_transcripts.len(), 1);
        },
        _ => panic!("wrong reason"),
    }
}

#[test]
fn map_insert_replaces_same_code() {
    let mut m = TranscriptMap::new();
    m.insert("en".to_string(), generated("en", "first"));
    m.insert("fr".to_string(), generated("fr", "french"));
    m.insert("en".to_string(), generated("en", "second"));
    assert_eq!(m.len(), 2);
    assert_eq!(m.get("en").unwrap().language(), "second");
    assert_eq!(m.get("fr").unwrap().language(), "french");
    assert!(m.get("de").is_none());
    let names: Vec<String> = m.values().iter().map(|t| t.language().to_string()).collect();
    assert_eq!(names, vec!["second".to_string(), "french".to_string()]);
}

#[test]
fn translate_to_available_language() {
    let list = create_mock_transcript_list();
    let t = list.find_transcript(&["en"]).ok().unwrap();
    assert!(t.is_translatable());
    let fr = t.translate("fr").ok().unwrap();
    assert_eq!(fr.url(), "https://mock.youtube.com/transcript/en&tlang=fr");
    assert_eq!(fr.language(), "French");
    assert_eq!(fr.language_code(), "fr");
    assert!(fr.is_generated());
    assert!(fr.is_translatable());
    assert_eq!(fr.translation_languages().len(), 2);
    assert_eq!(fr.video_id(), MOCK_VIDEO_ID);
    let again = fr.translate("en").ok().unwrap();
    assert_eq!(again.url(), "https://mock.youtube.com/transcript/en&tlang=fr&tlang=en");
    assert_eq!(again.language(), "English");
    assert!(again.translation_languages_map().contains_key("fr"));
    let err = fr.translate("de").err().unwrap();
    assert!(matches!(err.reason, Some(CouldNotRetrieveTranscriptReason::TranslationLanguageNotAvailable)));
}

#[test]
fn translate_to_missing_language() {
    let list = create_mock_transcript_list();
    let t = list.find_transcript(&["en"]).ok().unwrap();
    let err = t.translate("de").err().unwrap();
    assert!(matches!(err.reason, Some(CouldNotRetrieveTranscriptReason::TranslationLanguageNotAvailable)));
}

#[test]
fn translation_map_keeps_last_language_for_a_code() {
    let t = Transcript::new(
        "v".to_string(),
        "u".to_string(),
        "English".to_string(),
        "en".to_string(),
        false,
        vec![lang("Deutsch", "de"), lang("German", "de")],
    );
    assert_eq!(t.translation_languages_map().get("de"), Some("German".to_string()));
    assert!(t.translation_languages_map().contains_key("de"));
    assert!(!t.translation_languages_map().contains_key("en"));
    assert_eq!(t.translate("de").ok().unwrap().language(), "German");
}

fn captions_json() -> serde_json::Value {
    serde_json::from_str(
        r#"{
        "captionTracks": [
            {"baseUrl": "https://x/en", "name": {"simpleText": "English"}, "languageCode": "en", "isTranslatable": true},
            {"baseUrl": "https://x/en-asr", "name": {"simpleText": "English (auto-generated)"}, "languageCode": "en", "kind": "asr", "isTranslatable": true},
            {"baseUrl": "https://x/de", "name": {"simpleText": "German"}, "languageCode": "de"},
            {"name": {"simpleText": "No URL"}, "languageCode": "xx"}
        ],
        "translationLanguages": [
            {"languageCode": "fr", "languageName": {"simpleText": "French"}},
            {"languageCode": "es"},
            {"languageCode": "it", "languageName": {"simpleText": "Italian"}}
        ]
    }"#,
    )
    .unwrap()
}

#[test]
fn build_reads_tracks_and_languages() {
    let list = TranscriptList::build("vid".to_string(), &captions_json()).ok().unwrap();
    assert_eq!(list.video_id, "vid");
    let codes: Vec<String> = list.translation_languages.iter().map(|l| l.language_code.clone()).collect();
    assert_eq!(codes, vec!["fr".to_string(), "it".to_string()]);
    assert_eq!(list.manually_created_transcripts.len(), 2);
    assert_eq!(list.generated_transcripts.len(), 1);
    let en = list.manually_created_transcripts.get("en").unwrap();
    assert_eq!(en.url(), "https://x/en");
    assert_eq!(en.translation_languages().len(), 2);
    let de = list.manually_created_transcripts.get("de").unwrap();
    assert!(!de.is_translatable());
    let asr = list.generated_transcripts.get("en").unwrap();
    assert!(asr.is_generated());
    assert_eq!(asr.language(), "English (auto-generated)");
    assert!(list.find_transcript(&["xx"]).is_err());
}

#[test]
fn build_of_empty_captions_is_empty() {
    let v: serde_json::Value = serde_json::from_str("{}").unwrap();
    let list = TranscriptList::build("vid".to_string(), &v).ok().unwrap();
    assert!(list.transcripts().is_empty());
    assert!(list.translation_languages.is_empty());
}

#[test]
fn transcript_response_status_and_data() {
    let list = create_mock_transcript_list();
    let t = list.find_transcript(&["en"]).ok().unwrap();
    assert!(t.response_status_error(200, "200 OK").is_none());
    let e = t.response_status_error(404, "404 Not Found").unwrap();
    assert_eq!(e.video_id, MOCK_VIDEO_ID);
    match e.reason {
        Some(CouldNotRetrieveTranscriptReason::YouTubeRequestFailed(m)) => {
            assert_eq!(m, "YouTube returned status code: 404 Not Found")
        },
        _ => panic!("wrong reason"),
    }
    let parser = yt_transcript_rs::transcript_parser::TranscriptParser::new(false);
    let err = t.snippets_of_data(&parser, "<transcript>").err().unwrap();
    assert!(matches!(err.reason, Some(CouldNotRetrieveTranscriptReason::YouTubeDataUnparsable)));
    let ok = t.snippets_of_data(&parser, "<transcript><text>a</text></transcript>").ok().unwrap();
    assert_eq!(ok[0].text, "a");
}
