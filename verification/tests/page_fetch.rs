use yt_transcript_rs::errors::CouldNotRetrieveTranscriptReason as R;
use yt_transcript_rs::youtube_page_fetcher::{watch_url, PageFetchAction, PageFetchEvent, PageFetchStep, YoutubePageFetcher};

fn response(success: bool) -> PageFetchEvent {
    PageFetchEvent::ResponseReceived { success, status_text: "404 Not Found".to_string() }
}

#[test]
fn watch_url_has_the_id() {
    assert_eq!(watch_url("abc"), "https://www.youtube.com/watch?v=abc");
}

#[test]
fn plain_page_is_returned() {
    let mut f = YoutubePageFetcher::try_new("abc", false).unwrap();
    assert!(matches!(f.next(response(true)), PageFetchAction::ReadBody));
    match f.next(PageFetchEvent::BodyReceived("<html>page</html>".to_string())) {
        PageFetchAction::Finish(Ok(h)) => assert_eq!(h, "<html>page</html>"),
        _ => panic!("expected the page"),
    }
    assert!(f.step() == PageFetchStep::Done);
}

#[test]
fn failed_status_is_reported() {
    let mut f = YoutubePageFetcher::try_new("abc", false).unwrap();
    match f.next(response(false)) {
        PageFetchAction::Finish(Err(e)) => match e.reason {
            Some(R::YouTubeRequestFailed(m)) => assert_eq!(m, "YouTube returned status code: 404 Not Found"),
            _ => panic!("wrong reason"),
        },
        _ => panic!("expected an error"),
    }
}

#[test]
fn blocked_requests() {
    let mut f = YoutubePageFetcher::try_new("abc", false).unwrap();
    match f.next(PageFetchEvent::RequestFailed { status: Some(429), message: "too many".to_string() }) {
        PageFetchAction::Finish(Err(e)) => assert!(matches!(e.reason, Some(R::IpBlocked(None)))),
        _ => panic!("expected an error"),
    }
    let mut f = YoutubePageFetcher::try_new("abc", true).unwrap();
    match f.next(PageFetchEvent::RequestFailed { status: Some(403), message: "forbidden".to_string() }) {
        PageFetchAction::Finish(Err(e)) => assert!(matches!(e.reason, Some(R::RequestBlocked(None)))),
        _ => panic!("expected an error"),
    }
    let mut f = YoutubePageFetcher::try_new("abc", true).unwrap();
    match f.next(PageFetchEvent::RequestFailed { status: None, message: "dns".to_string() }) {
        PageFetchAction::Finish(Err(e)) => match e.reason {
            Some(R::YouTubeRequestFailed(m)) => assert_eq!(m, "dns"),
            _ => panic!("wrong reason"),
        },
        _ => panic!("expected an error"),
    }
}

const CONSENT_PAGE: &str = r#"<form action="https://consent.youtube.com/s"><input name="v" value="cb.20210328-17-p0.en+FX+999"></form>"#;

#[test]
fn consent_is_given_then_page_fetched_again() {
    let mut f = YoutubePageFetcher::try_new("abc", false).unwrap();
    f.next(response(true));
    match f.next(PageFetchEvent::BodyReceived(CONSENT_PAGE.to_string())) {
        PageFetchAction::SendConsentCookie(c) => {
            assert_eq!(c, "CONSENT=YES+cb.20210328-17-p0.en+FX+999; Domain=.youtube.com; Path=/; Max-Age=31536000")
        },
        _ => panic!("expected the consent cookie"),
    }
    match f.next(response(false)) {
        PageFetchAction::RefetchPage(c) => assert_eq!(c, "CONSENT=YES+cb.20210328-17-p0.en+FX+999"),
        _ => panic!("expected the page to be requested again"),
    }
    assert!(matches!(f.next(response(true)), PageFetchAction::ReadBody));
    match f.next(PageFetchEvent::BodyReceived("<html>ok</html>".to_string())) {
        PageFetchAction::Finish(Ok(h)) => assert_eq!(h, "<html>ok</html>"),
        _ => panic!("expected the page"),
    }
}

#[test]
fn consent_form_twice_fails() {
    let mut f = YoutubePageFetcher::try_new("abc", false).unwrap();
    f.next(response(true));
    f.next(PageFetchEvent::BodyReceived(CONSENT_PAGE.to_string()));
    f.next(response(true));
    f.next(response(true));
    match f.next(PageFetchEvent::BodyReceived(CONSENT_PAGE.to_string())) {
        PageFetchAction::Finish(Err(e)) => assert!(matches!(e.reason, Some(R::FailedToCreateConsentCookie))),
        _ => panic!("expected an error"),
    }
}

#[test]
fn consent_form_without_value_fails() {
    let mut f = YoutubePageFetcher::try_new("abc", false).unwrap();
    f.next(response(true));
    match f.next(PageFetchEvent::BodyReceived(r#"<form action="https://consent.youtube.com/s"></form>"#.to_string())) {
        PageFetchAction::Finish(Err(e)) => assert!(matches!(e.reason, Some(R::FailedToCreateConsentCookie))),
        _ => panic!("expected an error"),
    }
}

#[test]
fn consent_cookie_request_failure() {
    let mut f = YoutubePageFetcher::try_new("abc", false).unwrap();
    f.next(response(true));
    f.next(PageFetchEvent::BodyReceived(CONSENT_PAGE.to_string()));
    match f.next(PageFetchEvent::RequestFailed { status: Some(500), message: "x".to_string() }) {
        PageFetchAction::Finish(Err(e)) => assert!(matches!(e.reason, Some(R::FailedToCreateConsentCookie))),
        _ => panic!("expected an error"),
    }
}

#[test]
fn body_read_failure() {
    let mut f = YoutubePageFetcher::try_new("abc", false).unwrap();
    f.next(response(true));
    match f.next(PageFetchEvent::BodyFailed("cut".to_string())) {
        PageFetchAction::Finish(Err(e)) => match e.reason {
            Some(R::YouTubeRequestFailed(m)) => assert_eq!(m, "cut"),
            _ => panic!("wrong reason"),
        },
        _ => panic!("expected an error"),
    }
}
