//! The decisions of fetching a video page: which request comes next, when
//! the cookie consent form is answered, and which error a failure gives.
//! The requests themselves are made by the caller, who hands back what
//! came of each.

use vstd::prelude::*;
use crate::errors::{CouldNotRetrieveTranscript, CouldNotRetrieveTranscriptReason, ErrorView, ReasonView, error_view};
use crate::pattern::{CompiledRegex, regex_compiles, regex_first_group, regex_capture_group1};
use crate::text::{owned, concat, push_str, contains, contains_seq, replace, replace_spec};

verus! {

/// The URL of a video's page, with `{video_id}` to fill in.
pub const WATCH_URL: &'static str = "https://www.youtube.com/watch?v={video_id}";

/// What a page holds when YouTube asks for cookie consent first.
pub const CONSENT_FORM_MARKER: &'static str = "action=\"https://consent.youtube.com/s\"";

/// The pattern whose group 1 is the value of the consent form's `v` field.
pub const CONSENT_VALUE_PATTERN: &'static str = "name=\"v\" value=\"([^\"]+)";

/// The URL of a video's page.
pub fn watch_url(video_id: &str) -> (u: String)
    ensures
        u@ == replace_spec(WATCH_URL@, "{video_id}"@, video_id@),
{
    proof {
        reveal_strlit("{video_id}");
    }
    replace(WATCH_URL, "{video_id}", video_id)
}

/// The cookie header that gives consent with the form's value `v`.
pub open spec fn consent_cookie_text(v: Seq<char>) -> Seq<char> {
    "CONSENT=YES+"@ + v + "; Domain=.youtube.com; Path=/; Max-Age=31536000"@
}

/// Where the fetch of a page stands.
#[derive(Debug, PartialEq, Eq, Structural, Clone, Copy)]
pub enum PageFetchStep {
    /// The page has been requested.
    AwaitingPage,
    /// The page's response has come; its body is being read.
    AwaitingPageBody,
    /// The consent cookie has been sent.
    AwaitingConsentCookie,
    /// The page has been requested again, with consent given.
    AwaitingConsentedPage,
    /// The body of the page requested again is being read.
    AwaitingConsentedPageBody,
    /// The fetch has finished.
    Done,
}

/// What came of the last request.
#[derive(Debug)]
pub enum PageFetchEvent {
    /// Sending failed; the HTTP status if the failure carried one, and the
    /// error's text.
    RequestFailed { status: Option<u16>, message: String },
    /// A response came, with success or not, and its status as text
    /// (code and reason, e.g. `404 Not Found`).
    ResponseReceived { success: bool, status_text: String },
    /// The body was read.
    BodyReceived(String),
    /// Reading the body failed, with the error's text.
    BodyFailed(String),
}

/// What the caller is to do next.
#[derive(Debug)]
pub enum PageFetchAction {
    /// Read the body of the response.
    ReadBody,
    /// Send a request to `https://www.youtube.com` with this `Cookie` header.
    SendConsentCookie(String),
    /// Request the page again, with this `Cookie` header.
    RefetchPage(String),
    /// The fetch is over: the page's HTML, or why there is none.
    Finish(Result<String, CouldNotRetrieveTranscript>),
}

/// The content of a `PageFetchEvent`.
pub enum EventView {
    RequestFailed { status: Option<u16>, message: Seq<char> },
    ResponseReceived { success: bool, status_text: Seq<char> },
    BodyReceived(Seq<char>),
    BodyFailed(Seq<char>),
}

/// The content of a `PageFetchAction`.
pub enum ActionView {
    ReadBody,
    SendConsentCookie(Seq<char>),
    RefetchPage(Seq<char>),
    Finish(Result<Seq<char>, ErrorView>),
}

impl View for PageFetchEvent {
    type V = EventView;

    open spec fn view(&self) -> EventView {
        match self {
            PageFetchEvent::RequestFailed { status, message } => EventView::RequestFailed { status: *status, message: message@ },
            PageFetchEvent::ResponseReceived { success, status_text } =>
                EventView::ResponseReceived { success: *success, status_text: status_text@ },
            PageFetchEvent::BodyReceived(b) => EventView::BodyReceived(b@),
            PageFetchEvent::BodyFailed(m) => EventView::BodyFailed(m@),
        }
    }
}

impl View for PageFetchAction {
    type V = ActionView;

    open spec fn view(&self) -> ActionView {
        match self {
            PageFetchAction::ReadBody => ActionView::ReadBody,
            PageFetchAction::SendConsentCookie(c) => ActionView::SendConsentCookie(c@),
            PageFetchAction::RefetchPage(c) => ActionView::RefetchPage(c@),
            PageFetchAction::Finish(Ok(h)) => ActionView::Finish(Ok(h@)),
            PageFetchAction::Finish(Err(e)) => ActionView::Finish(Err(e@)),
        }
    }
}

/// Whether an event can come in a step: answers to requests while a
/// request is out, body reads while a body is read.
pub open spec fn event_expected(step: PageFetchStep, ev: EventView) -> bool {
    match step {
        PageFetchStep::AwaitingPage | PageFetchStep::AwaitingConsentCookie | PageFetchStep::AwaitingConsentedPage =>
            ev is RequestFailed || ev is ResponseReceived,
        PageFetchStep::AwaitingPageBody | PageFetchStep::AwaitingConsentedPageBody =>
            ev is BodyReceived || ev is BodyFailed,
        PageFetchStep::Done => false,
    }
}

/// The error of a failed request for the page: a block (by the proxy or of
/// the IP) for status 403 or 429, else the failure's text.
pub open spec fn send_failure(video_id: Seq<char>, has_proxy: bool, status: Option<u16>, message: Seq<char>) -> ErrorView {
    if status == Some(403u16) || status == Some(429u16) {
        if has_proxy {
            error_view(video_id, ReasonView::RequestBlocked(None))
        } else {
            error_view(video_id, ReasonView::IpBlocked(None))
        }
    } else {
        error_view(video_id, ReasonView::YouTubeRequestFailed(message))
    }
}

/// The value of the consent form's `v` field in a page.
pub open spec fn consent_value(html: Seq<char>) -> Option<Seq<char>> {
    regex_first_group(CONSENT_VALUE_PATTERN@, html)
}

/// The `Cookie` header that carries consent with the form's value `v`.
pub open spec fn consent_header(v: Seq<char>) -> Seq<char> {
    "CONSENT=YES+"@ + v
}

/// The next step, consent value and action for an event. The consent value
/// is the form's `v` once it has been read, and the page requested again
/// carries it.
pub open spec fn page_fetch_next(
    step: PageFetchStep,
    consent: Seq<char>,
    video_id: Seq<char>,
    has_proxy: bool,
    ev: EventView,
) -> (PageFetchStep, Seq<char>, ActionView) {
    let failed = |m: Seq<char>| (PageFetchStep::Done, consent, ActionView::Finish(Err(error_view(video_id, ReasonView::YouTubeRequestFailed(m)))));
    let no_consent = (PageFetchStep::Done, consent, ActionView::Finish(Err(error_view(video_id, ReasonView::FailedToCreateConsentCookie))));
    match (step, ev) {
        (PageFetchStep::AwaitingPage, EventView::RequestFailed { status, message }) =>
            (PageFetchStep::Done, consent, ActionView::Finish(Err(send_failure(video_id, has_proxy, status, message)))),
        (PageFetchStep::AwaitingPage, EventView::ResponseReceived { success, status_text }) =>
            if success {
                (PageFetchStep::AwaitingPageBody, consent, ActionView::ReadBody)
            } else {
                failed("YouTube returned status code: "@ + status_text)
            },
        (PageFetchStep::AwaitingPageBody, EventView::BodyFailed(m)) => failed(m),
        (PageFetchStep::AwaitingPageBody, EventView::BodyReceived(html)) =>
            if contains_seq(html, CONSENT_FORM_MARKER@) {
                match consent_value(html) {
                    Some(v) => (PageFetchStep::AwaitingConsentCookie, v, ActionView::SendConsentCookie(consent_cookie_text(v))),
                    None => no_consent,
                }
            } else {
                (PageFetchStep::Done, consent, ActionView::Finish(Ok(html)))
            },
        (PageFetchStep::AwaitingConsentCookie, EventView::RequestFailed { .. }) => no_consent,
        (PageFetchStep::AwaitingConsentCookie, EventView::ResponseReceived { .. }) =>
            (PageFetchStep::AwaitingConsentedPage, consent, ActionView::RefetchPage(consent_header(consent))),
        (PageFetchStep::AwaitingConsentedPage, EventView::RequestFailed { message, .. }) => failed(message),
        (PageFetchStep::AwaitingConsentedPage, EventView::ResponseReceived { .. }) =>
            (PageFetchStep::AwaitingConsentedPageBody, consent, ActionView::ReadBody),
        (PageFetchStep::AwaitingConsentedPageBody, EventView::BodyFailed(m)) => failed(m),
        (PageFetchStep::AwaitingConsentedPageBody, EventView::BodyReceived(html)) =>
            if contains_seq(html, CONSENT_FORM_MARKER@) {
                no_consent
            } else {
                (PageFetchStep::Done, consent, ActionView::Finish(Ok(html)))
            },
        _ => (step, consent, ActionView::ReadBody),
    }
}

/// The fetch of one video page.
#[derive(Debug)]
pub struct YoutubePageFetcher {
    video_id: String,
    has_proxy: bool,
    step: PageFetchStep,
    consent: String,
    consent_regex: CompiledRegex,
}

impl YoutubePageFetcher {
    #[verifier::type_invariant]
    spec fn inv(&self) -> bool {
        &&& self.consent_regex.valid()
        &&& self.consent_regex.pattern() == CONSENT_VALUE_PATTERN@
    }

    pub closed spec fn video(&self) -> Seq<char> {
        self.video_id@
    }

    pub closed spec fn uses_proxy(&self) -> bool {
        self.has_proxy
    }

    pub closed spec fn current_step(&self) -> PageFetchStep {
        self.step
    }

    /// The value of the consent form's `v` field, once read; empty before.
    pub closed spec fn consent(&self) -> Seq<char> {
        self.consent@
    }

    /// The fetch of `video_id`'s page, whose first request has been sent.
    /// The consent pattern must compile.
    pub fn new(video_id: &str, has_proxy: bool) -> (f: Self)
        requires
            regex_compiles(CONSENT_VALUE_PATTERN@),
        ensures
            f.video() == video_id@,
            f.uses_proxy() == has_proxy,
            f.current_step() == PageFetchStep::AwaitingPage,
            f.consent() == Seq::<char>::empty(),
    {
        YoutubePageFetcher {
            video_id: owned(video_id),
            has_proxy,
            step: PageFetchStep::AwaitingPage,
            consent: String::new(),
            consent_regex: CompiledRegex::new(CONSENT_VALUE_PATTERN),
        }
    }

    /// Like `new`, or `None` where the consent pattern does not compile.
    pub fn try_new(video_id: &str, has_proxy: bool) -> (res: Option<Self>)
        ensures
            match res {
                Some(f) => f.video() == video_id@ && f.uses_proxy() == has_proxy
                    && f.current_step() == PageFetchStep::AwaitingPage && f.consent() == Seq::<char>::empty(),
                None => !regex_compiles(CONSENT_VALUE_PATTERN@),
            },
    {
        let probe = CompiledRegex::new(CONSENT_VALUE_PATTERN);
        if probe.is_valid() {
            Some(Self::new(video_id, has_proxy))
        } else {
            None
        }
    }

    /// Where the fetch stands.
    pub fn step(&self) -> (s: PageFetchStep)
        ensures
            s == self.current_step(),
    {
        self.step
    }

    /// The next action, for what came of the last one.
    pub fn next(&mut self, event: PageFetchEvent) -> (action: PageFetchAction)
        requires
            event_expected(old(self).current_step(), event@),
        ensures
            (final(self).current_step(), final(self).consent(), action@)
                == page_fetch_next(old(self).current_step(), old(self).consent(), old(self).video(), old(self).uses_proxy(), event@),
            final(self).video() == old(self).video(),
            final(self).uses_proxy() == old(self).uses_proxy(),
    {
        proof {
            use_type_invariant(&*self);
        }
        let video_id = self.video_id.clone();
        let failed = |m: String| -> (r: PageFetchAction)
            ensures
                r@ == ActionView::Finish(Err(error_view(video_id@, ReasonView::YouTubeRequestFailed(m@)))),
        {
            PageFetchAction::Finish(Err(CouldNotRetrieveTranscript {
                video_id: video_id.clone(),
                reason: Some(CouldNotRetrieveTranscriptReason::YouTubeRequestFailed(m)),
            }))
        };
        let no_consent = PageFetchAction::Finish(Err(CouldNotRetrieveTranscript {
            video_id: self.video_id.clone(),
            reason: Some(CouldNotRetrieveTranscriptReason::FailedToCreateConsentCookie),
        }));
        match (self.step, event) {
            (PageFetchStep::AwaitingPage, PageFetchEvent::RequestFailed { status, message }) => {
                self.step = PageFetchStep::Done;
                let blocked = match status {
                    Some(s) => s == 403 || s == 429,
                    None => false,
                };
                let reason = if blocked {
                    if self.has_proxy {
                        CouldNotRetrieveTranscriptReason::RequestBlocked(None)
                    } else {
                        CouldNotRetrieveTranscriptReason::IpBlocked(None)
                    }
                } else {
                    CouldNotRetrieveTranscriptReason::YouTubeRequestFailed(message)
                };
                PageFetchAction::Finish(Err(CouldNotRetrieveTranscript { video_id: self.video_id.clone(), reason: Some(reason) }))
            },
            (PageFetchStep::AwaitingPage, PageFetchEvent::ResponseReceived { success, status_text }) => {
                if success {
                    self.step = PageFetchStep::AwaitingPageBody;
                    PageFetchAction::ReadBody
                } else {
                    self.step = PageFetchStep::Done;
                    failed(concat("YouTube returned status code: ", status_text.as_str()))
                }
            },
            (PageFetchStep::AwaitingPageBody, PageFetchEvent::BodyFailed(m)) => {
                self.step = PageFetchStep::Done;
                failed(m)
            },
            (PageFetchStep::AwaitingPageBody, PageFetchEvent::BodyReceived(html)) => {
                if contains(html.as_str(), CONSENT_FORM_MARKER) {
                    match regex_capture_group1(&self.consent_regex, html.as_str()) {
                        Some(v) => {
                            self.step = PageFetchStep::AwaitingConsentCookie;
                            let mut c = owned("CONSENT=YES+");
                            push_str(&mut c, v.as_str());
                            push_str(&mut c, "; Domain=.youtube.com; Path=/; Max-Age=31536000");
                            self.consent = v;
                            PageFetchAction::SendConsentCookie(c)
                        },
                        None => {
                            self.step = PageFetchStep::Done;
                            no_consent
                        },
                    }
                } else {
                    self.step = PageFetchStep::Done;
                    PageFetchAction::Finish(Ok(html))
                }
            },
            (PageFetchStep::AwaitingConsentCookie, PageFetchEvent::RequestFailed { .. }) => {
                self.step = PageFetchStep::Done;
                no_consent
            },
            (PageFetchStep::AwaitingConsentCookie, PageFetchEvent::ResponseReceived { .. }) => {
                self.step = PageFetchStep::AwaitingConsentedPage;
                PageFetchAction::RefetchPage(concat("CONSENT=YES+", self.consent.as_str()))
            },
            (PageFetchStep::AwaitingConsentedPage, PageFetchEvent::RequestFailed { message, .. }) => {
                self.step = PageFetchStep::Done;
                failed(message)
            },
            (PageFetchStep::AwaitingConsentedPage, PageFetchEvent::ResponseReceived { .. }) => {
                self.step = PageFetchStep::AwaitingConsentedPageBody;
                PageFetchAction::ReadBody
            },
            (PageFetchStep::AwaitingConsentedPageBody, PageFetchEvent::BodyFailed(m)) => {
                self.step = PageFetchStep::Done;
                failed(m)
            },
            (PageFetchStep::AwaitingConsentedPageBody, PageFetchEvent::BodyReceived(html)) => {
                self.step = PageFetchStep::Done;
                if contains(html.as_str(), CONSENT_FORM_MARKER) {
                    no_consent
                } else {
                    PageFetchAction::Finish(Ok(html))
                }
            },
            _ => PageFetchAction::ReadBody,
        }
    }
}

/// The order of the steps.
pub open spec fn step_rank(s: PageFetchStep) -> int {
    match s {
        PageFetchStep::AwaitingPage => 0,
        PageFetchStep::AwaitingPageBody => 1,
        PageFetchStep::AwaitingConsentCookie => 2,
        PageFetchStep::AwaitingConsentedPage => 3,
        PageFetchStep::AwaitingConsentedPageBody => 4,
        PageFetchStep::Done => 5,
    }
}

/// Every expected event moves the fetch forward, so a fetch takes at most
/// five events; it is over exactly when the action is `Finish`.
pub proof fn lemma_fetch_progresses(step: PageFetchStep, consent: Seq<char>, video_id: Seq<char>, has_proxy: bool, ev: EventView)
    requires
        event_expected(step, ev),
    ensures
        step_rank(page_fetch_next(step, consent, video_id, has_proxy, ev).0) > step_rank(step),
        (page_fetch_next(step, consent, video_id, has_proxy, ev).0 == PageFetchStep::Done)
            <==> page_fetch_next(step, consent, video_id, has_proxy, ev).2 is Finish,
{
}

/// The page handed back never holds the cookie consent form.
pub proof fn lemma_page_has_no_consent_form(step: PageFetchStep, consent: Seq<char>, video_id: Seq<char>, has_proxy: bool, ev: EventView)
    requires
        event_expected(step, ev),
    ensures
        page_fetch_next(step, consent, video_id, has_proxy, ev).2 matches ActionView::Finish(Ok(html))
            ==> !contains_seq(html, CONSENT_FORM_MARKER@),
{
}

/// Consent is asked for at most once: once the cookie has been sent, no
/// later action sends it again.
pub proof fn lemma_consent_sent_once(step: PageFetchStep, consent: Seq<char>, video_id: Seq<char>, has_proxy: bool, ev: EventView)
    requires
        event_expected(step, ev),
        step_rank(step) >= step_rank(PageFetchStep::AwaitingConsentCookie),
    ensures
        !(page_fetch_next(step, consent, video_id, has_proxy, ev).2 is SendConsentCookie),
{
}

/// When the page holds the consent form with value `v`, the consent cookie
/// with `v` is sent, and once it has been accepted the page is requested
/// again with the cookie `CONSENT=YES+v`.
pub proof fn lemma_refetch_carries_consent(
    consent: Seq<char>,
    video_id: Seq<char>,
    has_proxy: bool,
    html: Seq<char>,
    v: Seq<char>,
    success: bool,
    status_text: Seq<char>,
)
    requires
        contains_seq(html, CONSENT_FORM_MARKER@),
        consent_value(html) == Some(v),
    ensures
        ({
            let first = page_fetch_next(PageFetchStep::AwaitingPageBody, consent, video_id, has_proxy, EventView::BodyReceived(html));
            let second = page_fetch_next(first.0, first.1, video_id, has_proxy,
                EventView::ResponseReceived { success, status_text });
            &&& first.2 == ActionView::SendConsentCookie(consent_cookie_text(v))
            &&& second.0 == PageFetchStep::AwaitingConsentedPage
            &&& second.2 == ActionView::RefetchPage(consent_header(v))
        }),
{
}

} // verus!
