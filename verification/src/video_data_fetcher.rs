//! What is computed from a fetched video page: the player response, the
//! captions data, the transcript list and the video details.

use vstd::prelude::*;
use crate::captions_extractor::{CaptionsExtractor, captions_spec};
use crate::errors::{CouldNotRetrieveTranscript, ErrorView, ReasonView, error_view};
use crate::js_var_parser::{JsVarParser, parse_outcome};
use crate::json::{JsonModel, json_model};
use crate::models::{VideoDetails, VideoDetailsView};
use crate::playability_asserter::{PlayabilityAsserter, playability_spec};
use crate::text::owned;
use crate::transcript_list::{TranscriptList, TranscriptListView, build_spec};
use crate::video_details_extractor::{VideoDetailsExtractor, video_details_spec};

verus! {

/// The player response that a page holds: the JSON value of
/// `ytInitialPlayerResponse`.
pub open spec fn player_response_spec(html: Seq<char>) -> Option<JsonModel> {
    parse_outcome(html, "ytInitialPlayerResponse"@)
}

/// What the captions data of a page is: an error when there is no player
/// response, when the video cannot be played, or when it has no captions.
pub open spec fn captions_json_spec(html: Seq<char>, video_id: Seq<char>) -> Result<JsonModel, ErrorView> {
    match player_response_spec(html) {
        None => Err(error_view(video_id, ReasonView::YouTubeDataUnparsable)),
        Some(pr) => match playability_spec(pr, video_id) {
            Some(e) => Err(e),
            None => match captions_spec(pr) {
                Some(c) => Ok(c),
                None => Err(error_view(video_id, ReasonView::TranscriptsDisabled)),
            },
        },
    }
}

/// The player response of a page.
pub fn extract_yt_initial_player_response(html: &str, video_id: &str) -> (res: Result<serde_json::Value, CouldNotRetrieveTranscript>)
    ensures
        match res {
            Ok(v) => player_response_spec(html@) == Some(json_model(v)),
            Err(e) => player_response_spec(html@) is None
                && e@ == error_view(video_id@, ReasonView::YouTubeDataUnparsable),
        },
{
    let parser = JsVarParser::new("ytInitialPlayerResponse");
    parser.parse(html, video_id)
}

/// The captions data of a page, after the playability check.
pub fn extract_captions_json(html: &str, video_id: &str) -> (res: Result<serde_json::Value, CouldNotRetrieveTranscript>)
    ensures
        match (res, captions_json_spec(html@, video_id@)) {
            (Ok(v), Ok(m)) => json_model(v) == m,
            (Err(e), Err(m)) => e@ == m,
            _ => false,
        },
{
    let player_response = extract_yt_initial_player_response(html, video_id)?;
    PlayabilityAsserter::assert_playability(&player_response, video_id)?;
    CaptionsExtractor::extract_captions_data(&player_response, video_id)
}

/// The transcript list of a page.
pub fn transcript_list_from_page(html: &str, video_id: &str) -> (res: Result<TranscriptList, CouldNotRetrieveTranscript>)
    ensures
        match (res, captions_json_spec(html@, video_id@)) {
            (Ok(l), Ok(m)) => l@ == build_spec(video_id@, m),
            (Err(e), Err(m)) => e@ == m,
            _ => false,
        },
{
    let captions = extract_captions_json(html, video_id)?;
    TranscriptList::build(owned(video_id), &captions)
}

/// The video details of a page.
pub fn video_details_from_page(html: &str, video_id: &str) -> (res: Result<VideoDetails, CouldNotRetrieveTranscript>)
    ensures
        match player_response_spec(html@) {
            None => res matches Err(e) && e@ == error_view(video_id@, ReasonView::YouTubeDataUnparsable),
            Some(pr) => match (res, video_details_spec(pr, video_id@)) {
                (Ok(d), Some(v)) => d@ == v,
                (Err(e), None) => e@ == error_view(video_id@, ReasonView::YouTubeDataUnparsable),
                _ => false,
            },
        },
{
    let player_response = extract_yt_initial_player_response(html, video_id)?;
    VideoDetailsExtractor::extract_video_details(&player_response, video_id)
}

} // verus!
