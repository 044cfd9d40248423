//! The captions data of a player response.

use vstd::prelude::*;
use crate::errors::{CouldNotRetrieveTranscript, CouldNotRetrieveTranscriptReason, ReasonView, error_view};
use crate::json::{JsonModel, json_model, json_get, json_clone, model_get, model_get_opt};
use crate::text::owned;

verus! {

/// The captions data of a player response: the value under
/// `captions.playerCaptionsTracklistRenderer`.
pub open spec fn captions_spec(player_response: JsonModel) -> Option<JsonModel> {
    model_get_opt(model_get(player_response, "captions"@), "playerCaptionsTracklistRenderer"@)
}

/// Reads the captions data of a player response.
#[derive(Debug)]
pub struct CaptionsExtractor;

impl CaptionsExtractor {
    /// The value under `captions.playerCaptionsTracklistRenderer`;
    /// `TranscriptsDisabled` when it is missing.
    pub fn extract_captions_data(player_response: &serde_json::Value, video_id: &str) -> (res: Result<serde_json::Value, CouldNotRetrieveTranscript>)
        ensures
            match res {
                Ok(v) => captions_spec(json_model(*player_response)) == Some(json_model(v)),
                Err(e) => captions_spec(json_model(*player_response)) is None
                    && e@ == error_view(video_id@, ReasonView::TranscriptsDisabled),
            },
    {
        match json_get(player_response, "captions") {
            Some(captions) => match json_get(captions, "playerCaptionsTracklistRenderer") {
                Some(renderer) => Ok(json_clone(renderer)),
                None => Err(CouldNotRetrieveTranscript {
                    video_id: owned(video_id),
                    reason: Some(CouldNotRetrieveTranscriptReason::TranscriptsDisabled),
                }),
            },
            None => Err(CouldNotRetrieveTranscript {
                video_id: owned(video_id),
                reason: Some(CouldNotRetrieveTranscriptReason::TranscriptsDisabled),
            }),
        }
    }
}

} // verus!
