//! The errors of the library.

use vstd::prelude::*;
use crate::models::strings_view;
use crate::text::{owned, push_str, concat, replace, replace_spec};
use crate::transcript_list::transcript_list_display;
use crate::proxies::ProxyKind;
use crate::transcript_list::{TranscriptList, TranscriptListView};

verus! {

/// A general error of the API.
#[derive(Debug)]
pub enum YouTubeTranscriptApiError {
    Generic,
}

/// Errors while loading a cookie file.
#[derive(Debug, Clone)]
pub enum CookieError {
    Generic,
    /// The cookie file cannot be read; holds the path as displayed.
    PathInvalid(String),
    /// The cookie file holds no usable cookie; holds the path as displayed.
    Invalid(String),
}

impl YouTubeTranscriptApiError {
    /// The message of the error, as its `Display` gives it.
    pub fn message(&self) -> (s: String)
        ensures
            s@ == "YouTube Transcript API error"@,
    {
        owned("YouTube Transcript API error")
    }
}

impl CookieError {
    /// The message of the error, as its `Display` gives it.
    pub fn message(&self) -> (s: String)
        ensures
            s@ == match self {
                CookieError::Generic => "Cookie error"@,
                CookieError::PathInvalid(p) => "Can't load the provided cookie file: "@ + p@,
                CookieError::Invalid(p) => "The cookies provided are not valid (may have expired): "@ + p@,
            },
    {
        match self {
            CookieError::Generic => owned("Cookie error"),
            CookieError::PathInvalid(p) => concat("Can't load the provided cookie file: ", p.as_str()),
            CookieError::Invalid(p) => concat("The cookies provided are not valid (may have expired): ", p.as_str()),
        }
    }
}

pub type CookiePathInvalid = CookieError;

pub type CookieInvalid = CookieError;

/// Why a transcript could not be retrieved for a video.
#[derive(Debug)]
pub struct CouldNotRetrieveTranscript {
    pub video_id: String,
    pub reason: Option<CouldNotRetrieveTranscriptReason>,
}

/// The causes of a `CouldNotRetrieveTranscript`.
#[derive(Debug)]
pub enum CouldNotRetrieveTranscriptReason {
    TranscriptsDisabled,
    NoTranscriptFound { requested_language_codes: Vec<String>, transcript_data: TranscriptList },
    VideoUnavailable,
    VideoUnplayable { reason: Option<String>, sub_reasons: Vec<String> },
    /// The kind of proxy configuration in use, if one is known.
    IpBlocked(Option<ProxyKind>),
    RequestBlocked(Option<ProxyKind>),
    NotTranslatable,
    TranslationLanguageNotAvailable,
    FailedToCreateConsentCookie,
    YouTubeRequestFailed(String),
    InvalidVideoId,
    AgeRestricted,
    YouTubeDataUnparsable,
}

/// The content of a `CouldNotRetrieveTranscriptReason`.
pub enum ReasonView {
    TranscriptsDisabled,
    NoTranscriptFound { requested_language_codes: Seq<Seq<char>>, transcript_data: TranscriptListView },
    VideoUnavailable,
    VideoUnplayable { reason: Option<Seq<char>>, sub_reasons: Seq<Seq<char>> },
    IpBlocked(Option<ProxyKind>),
    RequestBlocked(Option<ProxyKind>),
    NotTranslatable,
    TranslationLanguageNotAvailable,
    FailedToCreateConsentCookie,
    YouTubeRequestFailed(Seq<char>),
    InvalidVideoId,
    AgeRestricted,
    YouTubeDataUnparsable,
}

/// The content of a `CouldNotRetrieveTranscript`.
pub struct ErrorView {
    pub video_id: Seq<char>,
    pub reason: Option<ReasonView>,
}

pub open spec fn opt_string_view(s: Option<String>) -> Option<Seq<char>> {
    match s {
        Some(t) => Some(t@),
        None => None,
    }
}

impl View for CouldNotRetrieveTranscriptReason {
    type V = ReasonView;

    open spec fn view(&self) -> ReasonView {
        match self {
            CouldNotRetrieveTranscriptReason::TranscriptsDisabled => ReasonView::TranscriptsDisabled,
            CouldNotRetrieveTranscriptReason::NoTranscriptFound { requested_language_codes, transcript_data } =>
                ReasonView::NoTranscriptFound {
                    requested_language_codes: strings_view(requested_language_codes@),
                    transcript_data: transcript_data@,
                },
            CouldNotRetrieveTranscriptReason::VideoUnavailable => ReasonView::VideoUnavailable,
            CouldNotRetrieveTranscriptReason::VideoUnplayable { reason, sub_reasons } =>
                ReasonView::VideoUnplayable { reason: opt_string_view(*reason), sub_reasons: strings_view(sub_reasons@) },
            CouldNotRetrieveTranscriptReason::IpBlocked(k) => ReasonView::IpBlocked(*k),
            CouldNotRetrieveTranscriptReason::RequestBlocked(k) => ReasonView::RequestBlocked(*k),
            CouldNotRetrieveTranscriptReason::NotTranslatable => ReasonView::NotTranslatable,
            CouldNotRetrieveTranscriptReason::TranslationLanguageNotAvailable => ReasonView::TranslationLanguageNotAvailable,
            CouldNotRetrieveTranscriptReason::FailedToCreateConsentCookie => ReasonView::FailedToCreateConsentCookie,
            CouldNotRetrieveTranscriptReason::YouTubeRequestFailed(s) => ReasonView::YouTubeRequestFailed(s@),
            CouldNotRetrieveTranscriptReason::InvalidVideoId => ReasonView::InvalidVideoId,
            CouldNotRetrieveTranscriptReason::AgeRestricted => ReasonView::AgeRestricted,
            CouldNotRetrieveTranscriptReason::YouTubeDataUnparsable => ReasonView::YouTubeDataUnparsable,
        }
    }
}

impl View for CouldNotRetrieveTranscript {
    type V = ErrorView;

    open spec fn view(&self) -> ErrorView {
        ErrorView {
            video_id: self.video_id@,
            reason: match self.reason {
                Some(r) => Some(r@),
                None => None,
            },
        }
    }
}

/// The error for `video_id` with the given reason.
pub open spec fn error_view(video_id: Seq<char>, reason: ReasonView) -> ErrorView {
    ErrorView { video_id, reason: Some(reason) }
}

pub type TranscriptsDisabled = CouldNotRetrieveTranscript;

pub type NoTranscriptFound = CouldNotRetrieveTranscript;

pub type VideoUnavailable = CouldNotRetrieveTranscript;

pub type VideoUnplayable = CouldNotRetrieveTranscript;

pub type IpBlocked = CouldNotRetrieveTranscript;

pub type RequestBlocked = CouldNotRetrieveTranscript;

pub type NotTranslatable = CouldNotRetrieveTranscript;

pub type TranslationLanguageNotAvailable = CouldNotRetrieveTranscript;

pub type FailedToCreateConsentCookie = CouldNotRetrieveTranscript;

pub type YouTubeRequestFailed = CouldNotRetrieveTranscript;

pub type InvalidVideoId = CouldNotRetrieveTranscript;

pub type AgeRestricted = CouldNotRetrieveTranscript;

pub type YouTubeDataUnparsable = CouldNotRetrieveTranscript;


/// What `format!("{:?}", v)` writes for a list of strings.
pub uninterp spec fn debug_list_text(items: Seq<Seq<char>>) -> Seq<char>;

/// The `Debug` text of a list of strings (`format!("{:?}", ..)`).
#[verifier::external_body]
pub(crate) fn debug_strings(v: &Vec<String>) -> (s: String)
    ensures
        s@ == debug_list_text(strings_view(v@)),
{
    format!("{:?}", v)
}

pub const BLOCKED_CAUSE: &'static str = "YouTube is blocking requests from your IP. This usually is due to one of the following reasons:\n- You have done too many requests and your IP has been blocked by YouTube\n- You are doing requests from an IP belonging to a cloud provider (like AWS, Google Cloud Platform, Azure, etc.). Unfortunately, most IPs from cloud providers are blocked by YouTube.";

pub const WEBSHARE_BLOCKED: &'static str = "\n\nYouTube is blocking your requests, despite you using Webshare proxies. Please make sure that you have purchased \"Residential\" proxies and NOT \"Proxy Server\" or \"Static Residential\", as those won't work as reliably! The free tier also uses \"Proxy Server\" and will NOT work!\n\nThe only reliable option is using \"Residential\" proxies (not \"Static Residential\"), as this allows you to rotate through a pool of over 30M IPs, which means you will always find an IP that hasn't been blocked by YouTube yet!";

pub const GENERIC_PROXY_IP_BLOCKED: &'static str = "\n\nYouTube is blocking your requests, despite you using proxies. Keep in mind a proxy is just a way to hide your real IP behind the IP of that proxy, but there is no guarantee that the IP of that proxy won't be blocked as well.\n\nThe only truly reliable way to prevent IP blocks is rotating through a large pool of residential IPs, by using a provider like Webshare.";

pub const GENERIC_PROXY_REQUEST_BLOCKED: &'static str = "\n\nYouTube is blocking your requests, despite you using proxies. Keep in mind a proxy is just a way to hide your real IP behind the IP of that proxy, but there is no guarantee that the IP of that proxy won't be blocked as well.\n\nThe only truly reliable way to prevent IP blocks is rotating through a large pool of residential IPs.";

/// The explanation of a block of requests, by the kind of proxy in use.
pub open spec fn blocked_cause(kind: Option<ProxyKind>, ip: bool) -> Seq<char> {
    BLOCKED_CAUSE@ + match kind {
        Some(ProxyKind::Webshare) => WEBSHARE_BLOCKED@,
        Some(ProxyKind::Generic) => if ip { GENERIC_PROXY_IP_BLOCKED@ } else { GENERIC_PROXY_REQUEST_BLOCKED@ },
        _ => if ip { "\n\nIp blocked."@ } else { "\n\nRequest blocked."@ },
    }
}

/// The sub-reasons, each on a line of its own after a heading; nothing
/// when there are none.
pub open spec fn sub_reasons_text(subs: Seq<Seq<char>>) -> Seq<char>
    decreases subs.len(),
{
    if subs.len() == 0 {
        Seq::empty()
    } else if subs.len() == 1 {
        "\n\nAdditional Details:\n"@ + " - "@ + subs[0] + "\n"@
    } else {
        sub_reasons_text(subs.drop_last()) + " - "@ + subs.last() + "\n"@
    }
}

/// The cause that a reason gives in the message.
pub open spec fn cause_text(reason: ReasonView) -> Seq<char> {
    match reason {
        ReasonView::TranscriptsDisabled => "Subtitles are disabled for this video"@,
        ReasonView::NoTranscriptFound { requested_language_codes, transcript_data } =>
            "No transcripts were found for any of the requested language codes: "@
                + debug_list_text(requested_language_codes) + "\n\n"@ + transcript_list_display(transcript_data),
        ReasonView::VideoUnavailable => "The video is no longer available"@,
        ReasonView::VideoUnplayable { reason, sub_reasons } =>
            "The video is unplayable for the following reason: "@ + match reason {
                Some(r) => r,
                None => "No reason specified!"@,
            } + sub_reasons_text(sub_reasons),
        ReasonView::IpBlocked(kind) => blocked_cause(kind, true),
        ReasonView::RequestBlocked(kind) => blocked_cause(kind, false),
        ReasonView::NotTranslatable => "The requested language is not translatable"@,
        ReasonView::TranslationLanguageNotAvailable => "The requested translation language is not available"@,
        ReasonView::FailedToCreateConsentCookie => "Failed to automatically give consent to saving cookies"@,
        ReasonView::YouTubeRequestFailed(r) => "Request to YouTube failed: "@ + r,
        ReasonView::InvalidVideoId => "You provided an invalid video id. Make sure you are using the video id and NOT the url!`"@,
        ReasonView::AgeRestricted => "This video is age-restricted. Therefore, you will have to authenticate to be able to retrieve transcripts for it. You will have to provide a cookie to authenticate yourself."@,
        ReasonView::YouTubeDataUnparsable => "The data required to fetch the transcript is not parsable. This should not happen, please open an issue (make sure to include the video ID)!"@,
    }
}

/// The message of an error: which video, then the cause if there is one.
pub open spec fn error_message(e: ErrorView) -> Seq<char> {
    let base = "Could not retrieve a transcript for the video "@ + replace_spec(e.video_id, "{video_id}"@, e.video_id) + "!"@;
    match e.reason {
        Some(r) => base + " This is most likely caused by:\n\n"@ + cause_text(r),
        None => base,
    }
}

fn blocked_message(kind: Option<ProxyKind>, ip: bool) -> (s: String)
    ensures
        s@ == blocked_cause(kind, ip),
{
    let mut s = owned(BLOCKED_CAUSE);
    match kind {
        Some(ProxyKind::Webshare) => push_str(&mut s, WEBSHARE_BLOCKED),
        Some(ProxyKind::Generic) => {
            if ip {
                push_str(&mut s, GENERIC_PROXY_IP_BLOCKED);
            } else {
                push_str(&mut s, GENERIC_PROXY_REQUEST_BLOCKED);
            }
        },
        _ => {
            if ip {
                push_str(&mut s, "\n\nIp blocked.");
            } else {
                push_str(&mut s, "\n\nRequest blocked.");
            }
        },
    }
    s
}

impl CouldNotRetrieveTranscriptReason {
    /// The cause this reason gives in the error message.
    pub fn cause(&self) -> (s: String)
        ensures
            s@ == cause_text(self@),
    {
        match self {
            CouldNotRetrieveTranscriptReason::TranscriptsDisabled => owned("Subtitles are disabled for this video"),
            CouldNotRetrieveTranscriptReason::NoTranscriptFound { requested_language_codes, transcript_data } => {
                let mut s = owned("No transcripts were found for any of the requested language codes: ");
                let d = debug_strings(requested_language_codes);
                push_str(&mut s, d.as_str());
                push_str(&mut s, "\n\n");
                let l = transcript_data.to_display_string();
                push_str(&mut s, l.as_str());
                s
            },
            CouldNotRetrieveTranscriptReason::VideoUnavailable => owned("The video is no longer available"),
            CouldNotRetrieveTranscriptReason::VideoUnplayable { reason, sub_reasons } => {
                let mut s = owned("The video is unplayable for the following reason: ");
                match reason {
                    Some(r) => push_str(&mut s, r.as_str()),
                    None => push_str(&mut s, "No reason specified!"),
                }
                let ghost head = s@;
                let ghost subs = strings_view(sub_reasons@);
                let mut i: usize = 0;
                assert(subs.take(0) =~= Seq::<Seq<char>>::empty());
                while i < sub_reasons.len()
                    invariant
                        i <= sub_reasons@.len(),
                        subs == strings_view(sub_reasons@),
                        s@ == head + sub_reasons_text(subs.take(i as int)),
                    decreases sub_reasons.len() - i,
                {
                    if i == 0 {
                        push_str(&mut s, "\n\nAdditional Details:\n");
                    }
                    push_str(&mut s, " - ");
                    push_str(&mut s, sub_reasons[i].as_str());
                    push_str(&mut s, "\n");
                    proof {
                        let t = subs.take(i + 1);
                        assert(t.drop_last() =~= subs.take(i as int));
                        assert(t.last() == subs[i as int]);
                        if i == 0 {
                            assert(t =~= seq![subs[0]]);
                        }
                    }
                    i = i + 1;
                    assert(s@ =~= head + sub_reasons_text(subs.take(i as int)));
                }
                assert(subs.take(sub_reasons@.len() as int) =~= subs);
                s
            },
            CouldNotRetrieveTranscriptReason::IpBlocked(kind) => blocked_message(*kind, true),
            CouldNotRetrieveTranscriptReason::RequestBlocked(kind) => blocked_message(*kind, false),
            CouldNotRetrieveTranscriptReason::NotTranslatable => owned("The requested language is not translatable"),
            CouldNotRetrieveTranscriptReason::TranslationLanguageNotAvailable => owned("The requested translation language is not available"),
            CouldNotRetrieveTranscriptReason::FailedToCreateConsentCookie => owned("Failed to automatically give consent to saving cookies"),
            CouldNotRetrieveTranscriptReason::YouTubeRequestFailed(r) => concat("Request to YouTube failed: ", r.as_str()),
            CouldNotRetrieveTranscriptReason::InvalidVideoId => owned("You provided an invalid video id. Make sure you are using the video id and NOT the url!`"),
            CouldNotRetrieveTranscriptReason::AgeRestricted => owned("This video is age-restricted. Therefore, you will have to authenticate to be able to retrieve transcripts for it. You will have to provide a cookie to authenticate yourself."),
            CouldNotRetrieveTranscriptReason::YouTubeDataUnparsable => owned("The data required to fetch the transcript is not parsable. This should not happen, please open an issue (make sure to include the video ID)!"),
        }
    }
}

impl CouldNotRetrieveTranscript {
    /// The message of the error, as its `Display` gives it.
    pub fn build_error_message(&self) -> (s: String)
        ensures
            s@ == error_message(self@),
    {
        let mut s = owned("Could not retrieve a transcript for the video ");
        proof {
            reveal_strlit("{video_id}");
        }
        let id = replace(self.video_id.as_str(), "{video_id}", self.video_id.as_str());
        push_str(&mut s, id.as_str());
        push_str(&mut s, "!");
        match &self.reason {
            Some(r) => {
                push_str(&mut s, " This is most likely caused by:\n\n");
                let c = r.cause();
                push_str(&mut s, c.as_str());
            },
            None => {},
        }
        s
    }
}

/// The message names the video: when the id does not hold `{video_id}`
/// it stands in the message as it is.
pub proof fn lemma_message_names_video(e: ErrorView)
    requires
        !crate::text::contains_seq(e.video_id, "{video_id}"@),
    ensures
        error_message(e).subrange(0, 46) == "Could not retrieve a transcript for the video "@,
        error_message(e).subrange(46, 46 + e.video_id.len() as int) == e.video_id,
{
    crate::text::lemma_replace_absent(e.video_id, "{video_id}"@, e.video_id);
    reveal_strlit("Could not retrieve a transcript for the video ");
    let base = "Could not retrieve a transcript for the video "@ + e.video_id + "!"@;
    match e.reason {
        Some(r) => {
            assert(error_message(e) == base + (" This is most likely caused by:\n\n"@ + cause_text(r)));
            assert(error_message(e).subrange(0, 46) =~= base.subrange(0, 46));
            assert(error_message(e).subrange(46, 46 + e.video_id.len() as int) =~= base.subrange(46, 46 + e.video_id.len() as int));
        },
        None => {},
    }
    assert(base.subrange(0, 46) =~= "Could not retrieve a transcript for the video "@);
    assert(base.subrange(46, 46 + e.video_id.len() as int) =~= e.video_id);
}

} // verus!
