//! Video metadata from the `videoDetails` section of a player response.

use vstd::prelude::*;
use crate::errors::{CouldNotRetrieveTranscript, CouldNotRetrieveTranscriptReason, ReasonView, error_view};
use crate::json::{JsonModel, json_model, json_get, json_as_str, json_as_u64, get_str, get_str2, get_array, get_bool,
    model_get, model_get_opt, model_str, model_str_opt, model_array_opt, model_bool_opt, model_u64_opt, models_of};
use crate::models::{VideoDetails, VideoDetailsView, VideoThumbnail, ThumbnailView, strings_view};
use crate::text::{owned, parse_u32, parse_u32_spec};

verus! {

/// A thumbnail entry: a string `url` and numbers `width` and `height`
/// (non-negative integers, cut to 32 bits).
pub open spec fn parse_thumbnail(item: JsonModel) -> Option<ThumbnailView> {
    match (model_str_opt(model_get(item, "url"@)), model_u64_opt(model_get(item, "width"@)), model_u64_opt(model_get(item, "height"@))) {
        (Some(u), Some(w), Some(h)) => Some(ThumbnailView { url: u, width: w as u32, height: h as u32 }),
        _ => None,
    }
}

/// The well-formed thumbnail entries, in order.
pub open spec fn parse_thumbnails(items: Seq<JsonModel>) -> Seq<ThumbnailView>
    decreases items.len(),
{
    if items.len() == 0 {
        Seq::empty()
    } else {
        parse_thumbnails(items.drop_last()) + match parse_thumbnail(items.last()) {
            Some(t) => seq![t],
            None => Seq::empty(),
        }
    }
}

/// The strings among some values, in order.
pub open spec fn string_items(items: Seq<JsonModel>) -> Seq<Seq<char>>
    decreases items.len(),
{
    if items.len() == 0 {
        Seq::empty()
    } else {
        string_items(items.drop_last()) + match model_str(items.last()) {
            Some(s) => seq![s],
            None => Seq::empty(),
        }
    }
}

/// A string field, or a default.
pub open spec fn str_or(v: Option<Seq<char>>, default: Seq<char>) -> Seq<char> {
    match v {
        Some(s) => s,
        None => default,
    }
}

/// The video details that a `videoDetails` object gives; a missing or
/// malformed field takes its default.
pub open spec fn details_of(d: JsonModel, video_id: Seq<char>) -> VideoDetailsView {
    VideoDetailsView {
        video_id: str_or(model_str_opt(model_get(d, "videoId"@)), video_id),
        title: str_or(model_str_opt(model_get(d, "title"@)), "Unknown Title"@),
        length_seconds: match model_str_opt(model_get(d, "lengthSeconds"@)) {
            Some(s) => match parse_u32_spec(s) {
                Some(n) => n,
                None => 0,
            },
            None => 0,
        },
        keywords: match model_array_opt(model_get(d, "keywords"@)) {
            Some(a) => Some(string_items(a)),
            None => None,
        },
        channel_id: str_or(model_str_opt(model_get(d, "channelId"@)), Seq::empty()),
        short_description: str_or(model_str_opt(model_get(d, "shortDescription"@)), Seq::empty()),
        view_count: str_or(model_str_opt(model_get(d, "viewCount"@)), "0"@),
        author: str_or(model_str_opt(model_get(d, "author"@)), "Unknown"@),
        thumbnails: match model_array_opt(model_get_opt(model_get(d, "thumbnail"@), "thumbnails"@)) {
            Some(a) => parse_thumbnails(a),
            None => Seq::empty(),
        },
        is_live_content: model_bool_opt(model_get(d, "isLiveContent"@)) == Some(true),
    }
}

/// The details of a player response: `None` without a `videoDetails` entry.
pub open spec fn video_details_spec(player_response: JsonModel, video_id: Seq<char>) -> Option<VideoDetailsView> {
    match model_get(player_response, "videoDetails"@) {
        Some(d) => Some(details_of(d, video_id)),
        None => None,
    }
}

/// Reads video metadata from a player response.
#[derive(Debug)]
pub struct VideoDetailsExtractor;

fn str_or_default(v: Option<&str>, default: &str) -> (r: String)
    ensures
        r@ == str_or(match v { Some(s) => Some(s@), None => None }, default@),
{
    match v {
        Some(s) => owned(s),
        None => owned(default),
    }
}

fn read_thumbnail(item: &serde_json::Value) -> (res: Option<VideoThumbnail>)
    ensures
        match res {
            Some(t) => parse_thumbnail(json_model(*item)) == Some(t@),
            None => parse_thumbnail(json_model(*item)) is None,
        },
{
    let url = get_str(item, "url");
    let width = match json_get(item, "width") {
        Some(w) => json_as_u64(w),
        None => None,
    };
    let height = match json_get(item, "height") {
        Some(h) => json_as_u64(h),
        None => None,
    };
    match (url, width, height) {
        (Some(u), Some(w), Some(h)) => Some(VideoThumbnail { url: owned(u), width: w as u32, height: h as u32 }),
        _ => None,
    }
}

fn read_thumbnails(items: &Vec<serde_json::Value>) -> (res: Vec<VideoThumbnail>)
    ensures
        res@.map_values(|t: VideoThumbnail| t@) == parse_thumbnails(models_of(items@)),
{
    let ghost m = models_of(items@);
    let mut res: Vec<VideoThumbnail> = Vec::new();
    let mut i: usize = 0;
    assert(res@.map_values(|t: VideoThumbnail| t@) =~= parse_thumbnails(m.take(0)));
    while i < items.len()
        invariant
            i <= items@.len(),
            m == models_of(items@),
            res@.map_values(|t: VideoThumbnail| t@) == parse_thumbnails(m.take(i as int)),
        decreases items.len() - i,
    {
        proof {
            let t = m.take(i + 1);
            assert(t.drop_last() =~= m.take(i as int));
            assert(t.last() == json_model(items@[i as int]));
        }
        match read_thumbnail(&items[i]) {
            Some(t) => {
                res.push(t);
            },
            None => {},
        }
        i = i + 1;
        assert(res@.map_values(|t: VideoThumbnail| t@) =~= parse_thumbnails(m.take(i as int)));
    }
    assert(m.take(items@.len() as int) =~= m);
    res
}

fn read_strings(items: &Vec<serde_json::Value>) -> (res: Vec<String>)
    ensures
        strings_view(res@) == string_items(models_of(items@)),
{
    let ghost m = models_of(items@);
    let mut res: Vec<String> = Vec::new();
    let mut i: usize = 0;
    assert(strings_view(res@) =~= string_items(m.take(0)));
    while i < items.len()
        invariant
            i <= items@.len(),
            m == models_of(items@),
            strings_view(res@) == string_items(m.take(i as int)),
        decreases items.len() - i,
    {
        proof {
            let t = m.take(i + 1);
            assert(t.drop_last() =~= m.take(i as int));
            assert(t.last() == json_model(items@[i as int]));
        }
        match json_as_str(&items[i]) {
            Some(s) => {
                res.push(owned(s));
            },
            None => {},
        }
        i = i + 1;
        assert(strings_view(res@) =~= string_items(m.take(i as int)));
    }
    assert(m.take(items@.len() as int) =~= m);
    res
}

impl VideoDetailsExtractor {
    /// The details under `videoDetails`, with defaults for missing fields;
    /// `YouTubeDataUnparsable` when there is no `videoDetails` entry.
    pub fn extract_video_details(player_response: &serde_json::Value, video_id: &str) -> (res: Result<VideoDetails, CouldNotRetrieveTranscript>)
        ensures
            match res {
                Ok(d) => video_details_spec(json_model(*player_response), video_id@) == Some(d@),
                Err(e) => video_details_spec(json_model(*player_response), video_id@) is None
                    && e@ == error_view(video_id@, ReasonView::YouTubeDataUnparsable),
            },
    {
        let details = match json_get(player_response, "videoDetails") {
            Some(d) => d,
            None => {
                return Err(CouldNotRetrieveTranscript {
                    video_id: owned(video_id),
                    reason: Some(CouldNotRetrieveTranscriptReason::YouTubeDataUnparsable),
                });
            },
        };
        let thumbnails = match json_get(details, "thumbnail") {
            Some(t) => match get_array(t, "thumbnails") {
                Some(a) => read_thumbnails(a),
                None => Vec::new(),
            },
            None => Vec::new(),
        };
        let keywords = match get_array(details, "keywords") {
            Some(a) => Some(read_strings(a)),
            None => None,
        };
        let length_seconds = match get_str(details, "lengthSeconds") {
            Some(s) => match parse_u32(s) {
                Some(n) => n,
                None => 0,
            },
            None => 0,
        };
        let is_live_content = match get_bool(details, "isLiveContent") {
            Some(b) => b,
            None => false,
        };
        let d = VideoDetails {
            video_id: str_or_default(get_str(details, "videoId"), video_id),
            title: str_or_default(get_str(details, "title"), "Unknown Title"),
            length_seconds,
            keywords,
            channel_id: str_or_default(get_str(details, "channelId"), ""),
            short_description: str_or_default(get_str(details, "shortDescription"), ""),
            view_count: str_or_default(get_str(details, "viewCount"), "0"),
            author: str_or_default(get_str(details, "author"), "Unknown"),
            thumbnails,
            is_live_content,
        };
        proof {
            reveal_strlit("");
            let ex = details_of(json_model(*details), video_id@);
            assert(d.thumbnails@.map_values(|t: VideoThumbnail| t@) =~= ex.thumbnails);
            assert(d@.video_id == ex.video_id);
            assert(d@.title == ex.title);
            assert(d@.length_seconds == ex.length_seconds);
            assert(d@.keywords == ex.keywords);
            assert(d@.channel_id == ex.channel_id);
            assert(d@.short_description == ex.short_description);
            assert(d@.view_count == ex.view_count);
            assert(d@.author == ex.author);
            assert(d@.thumbnails == ex.thumbnails);
            assert(d@.is_live_content == ex.is_live_content);
        }
        assert(d@ == details_of(json_model(*details), video_id@));
        Ok(d)
    }
}


/// The entry under `videoDetails.<key>` of a player response.
pub open spec fn details_entry(pr: JsonModel, key: Seq<char>) -> Option<JsonModel> {
    match pr {
        JsonModel::Object(m) => if m.dom().contains("videoDetails"@) {
            match m["videoDetails"@] {
                JsonModel::Object(d) => if d.dom().contains(key) { Some(d[key]) } else { None },
                _ => None,
            }
        } else {
            None
        },
        _ => None,
    }
}

/// A video is live content exactly when its details hold the boolean
/// `true` under `isLiveContent`: `false` there, a missing entry or one that
/// is not a boolean all read as not live.
pub proof fn lemma_live_flag_is_the_stored_boolean(pr: JsonModel, video_id: Seq<char>)
    ensures
        video_details_spec(pr, video_id) matches Some(v) ==> v.is_live_content == match details_entry(pr, "isLiveContent"@) {
            Some(JsonModel::Bool(b)) => b,
            _ => false,
        },
{
}

} // verus!
