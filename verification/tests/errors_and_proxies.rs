use yt_transcript_rs::errors::{CookieError, CouldNotRetrieveTranscript, CouldNotRetrieveTranscriptReason as R, YouTubeTranscriptApiError};
use yt_transcript_rs::proxies::{proxy_for_scheme, GenericProxyConfig, ProxyConfig, ProxyKind, WebshareProxyConfig};
use yt_transcript_rs::transcript_list::{TranscriptList, TranscriptMap};

fn err(reason: Option<R>) -> CouldNotRetrieveTranscript {
    CouldNotRetrieveTranscript { video_id: "abc".to_string(), reason }
}

#[test]
fn message_without_reason() {
    assert_eq!(err(None).build_error_message(), "Could not retrieve a transcript for the video abc!");
}

#[test]
fn message_with_simple_reasons() {
    assert_eq!(
        err(Some(R::TranscriptsDisabled)).build_error_message(),
        "Could not retrieve a transcript for the video abc! This is most likely caused by:\n\nSubtitles are disabled for this video"
    );
    assert_eq!(
        err(Some(R::YouTubeRequestFailed("boom".to_string()))).build_error_message(),
        "Could not retrieve a transcript for the video abc! This is most likely caused by:\n\nRequest to YouTube failed: boom"
    );
}

#[test]
fn message_of_unplayable_video() {
    let e = err(Some(R::VideoUnplayable { reason: None, sub_reasons: vec!["x".to_string(), "y".to_string()] }));
    assert_eq!(
        e.build_error_message(),
        "Could not retrieve a transcript for the video abc! This is most likely caused by:\n\nThe video is unplayable for the following reason: No reason specified!\n\nAdditional Details:\n - x\n - y\n"
    );
    let e = err(Some(R::VideoUnplayable { reason: Some("r".to_string()), sub_reasons: vec![] }));
    assert!(e.build_error_message().ends_with("following reason: r"));
}

#[test]
fn message_of_blocked_requests() {
    let m = err(Some(R::IpBlocked(None))).build_error_message();
    assert!(m.ends_with("\n\nIp blocked."));
    let m = err(Some(R::RequestBlocked(Some(ProxyKind::Generic)))).build_error_message();
    assert!(m.ends_with("a large pool of residential IPs."));
    let m = err(Some(R::IpBlocked(Some(ProxyKind::Generic)))).build_error_message();
    assert!(m.ends_with("by using a provider like Webshare."));
    let m = err(Some(R::IpBlocked(Some(ProxyKind::Webshare)))).build_error_message();
    assert!(m.contains("despite you using Webshare proxies"));
    let m = err(Some(R::RequestBlocked(Some(ProxyKind::Custom)))).build_error_message();
    assert!(m.ends_with("\n\nRequest blocked."));
}

#[test]
fn message_of_missing_transcript() {
    let list = TranscriptList::new("abc".to_string(), TranscriptMap::new(), TranscriptMap::new(), vec![]);
    let e = err(Some(R::NoTranscriptFound { requested_language_codes: vec!["en".to_string(), "d\"e".to_string()], transcript_data: list }));
    assert_eq!(
        e.build_error_message(),
        "Could not retrieve a transcript for the video abc! This is most likely caused by:\n\nNo transcripts were found for any of the requested language codes: [\"en\", \"d\\\"e\"]\n\nNo transcripts found"
    );
}

#[test]
fn message_replaces_placeholder_in_id() {
    let e = CouldNotRetrieveTranscript { video_id: "a{video_id}b".to_string(), reason: None };
    assert_eq!(e.build_error_message(), "Could not retrieve a transcript for the video aa{video_id}bb!");
}

#[test]
fn other_error_messages() {
    assert_eq!(CookieError::PathInvalid("/x".to_string()).message(), "Can't load the provided cookie file: /x");
    assert_eq!(CookieError::Invalid("/y".to_string()).message(), "The cookies provided are not valid (may have expired): /y");
    assert_eq!(CookieError::Generic.message(), "Cookie error");
    assert_eq!(YouTubeTranscriptApiError::Generic.message(), "YouTube Transcript API error");
}

#[test]
fn generic_proxy_requires_a_url() {
    let e = GenericProxyConfig::new(None, None).err().unwrap();
    assert_eq!(e.0, "GenericProxyConfig requires you to define at least one of the two: http or https");
    assert_eq!(e.message(), "Invalid proxy configuration: GenericProxyConfig requires you to define at least one of the two: http or https");
}

#[test]
fn generic_proxy_dict_falls_back() {
    let c = GenericProxyConfig::new(Some("http://p:1".to_string()), None).ok().unwrap();
    let d = c.to_requests_dict();
    assert_eq!(d, vec![("http".to_string(), "http://p:1".to_string()), ("https".to_string(), "http://p:1".to_string())]);
    assert!(!c.prevent_keeping_connections_alive());
    assert_eq!(c.retries_when_blocked(), 0);
    assert!(c.proxy_kind() == ProxyKind::Generic);
    let c = GenericProxyConfig::new(Some("a".to_string()), Some("b".to_string())).ok().unwrap();
    assert_eq!(proxy_for_scheme(&c.to_requests_dict(), "https"), Some("b".to_string()));
    assert_eq!(proxy_for_scheme(&c.to_requests_dict(), "http"), Some("a".to_string()));
    assert_eq!(proxy_for_scheme(&c.to_requests_dict(), "ftp"), None);
}

#[test]
fn webshare_proxy() {
    let c = WebshareProxyConfig::new("user".to_string(), "pw".to_string(), 3, None, None);
    assert_eq!(c.domain_name, WebshareProxyConfig::DEFAULT_DOMAIN_NAME);
    assert_eq!(c.proxy_port, WebshareProxyConfig::DEFAULT_PORT);
    assert_eq!(c.url(), "http://user-rotate:pw@p.webshare.io:80/");
    let c = WebshareProxyConfig::new("u".to_string(), "p".to_string(), 0, Some("d.example".to_string()), Some(65535));
    assert_eq!(c.url(), "http://u-rotate:p@d.example:65535/");
    let d = c.to_requests_dict();
    assert_eq!(d[0].1, c.url());
    assert_eq!(d[1].1, c.url());
    assert!(c.prevent_keeping_connections_alive());
    assert_eq!(c.retries_when_blocked(), 0);
    assert!(c.proxy_kind() == ProxyKind::Webshare);
}

#[test]
fn decimal_and_parse() {
    assert_eq!(yt_transcript_rs::text::decimal(0), "0");
    assert_eq!(yt_transcript_rs::text::decimal(1080), "1080");
    assert_eq!(yt_transcript_rs::text::parse_u32("+"), None);
    assert_eq!(yt_transcript_rs::text::parse_u32("-1"), None);
    assert_eq!(yt_transcript_rs::text::parse_u32("007"), Some(7));
    assert_eq!(yt_transcript_rs::text::parse_u32(""), None);
}
