//! The playability check of a video's player response.

use vstd::prelude::*;
use crate::errors::{CouldNotRetrieveTranscript, CouldNotRetrieveTranscriptReason, ErrorView, ReasonView, error_view};
use crate::json::{JsonModel, json_model, json_get, get_str, get_array, model_get, model_get_opt, model_str_opt, model_array_opt, models_of};
use crate::models::strings_view;
use crate::text::{contains, contains_seq, occurs_at, owned, str_eq};

verus! {

/// The value under `playabilityStatus`.
pub open spec fn playability_status(pd: JsonModel) -> Option<JsonModel> {
    model_get(pd, "playabilityStatus"@)
}

/// The status string, `"ERROR"` when there is none.
pub open spec fn status_of(pd: JsonModel) -> Seq<char> {
    match model_str_opt(model_get_opt(playability_status(pd), "status"@)) {
        Some(s) => s,
        None => "ERROR"@,
    }
}

/// The reason string, empty when there is none.
pub open spec fn reason_of(pd: JsonModel) -> Seq<char> {
    match model_str_opt(model_get_opt(playability_status(pd), "reason"@)) {
        Some(s) => s,
        None => Seq::empty(),
    }
}

/// The texts of the runs of the error screen's sub-reason, skipping runs
/// without a string `text`.
pub open spec fn run_texts(runs: Seq<JsonModel>) -> Seq<Seq<char>>
    decreases runs.len(),
{
    if runs.len() == 0 {
        Seq::empty()
    } else {
        run_texts(runs.drop_last()) + match model_str_opt(model_get(runs.last(), "text"@)) {
            Some(t) => seq![t],
            None => Seq::empty(),
        }
    }
}

/// The runs under `playabilityStatus.errorScreen.playerErrorMessageRenderer.subreason.runs`.
pub open spec fn subreason_runs(pd: JsonModel) -> Option<Seq<JsonModel>> {
    model_array_opt(model_get_opt(model_get_opt(model_get_opt(model_get_opt(
        playability_status(pd), "errorScreen"@), "playerErrorMessageRenderer"@), "subreason"@), "runs"@))
}

/// The sub-reasons of an unplayable video.
pub open spec fn subreasons_of(pd: JsonModel) -> Seq<Seq<char>> {
    match subreason_runs(pd) {
        Some(runs) => run_texts(runs),
        None => Seq::empty(),
    }
}

/// What the playability check answers: nothing for `OK`; age restriction
/// when login is required because of age; an unavailable video when the
/// reason says so; otherwise an unplayable video with the reason and the
/// sub-reasons.
pub open spec fn playability_spec(pd: JsonModel, video_id: Seq<char>) -> Option<ErrorView> {
    let status = status_of(pd);
    let reason = reason_of(pd);
    let unplayable = error_view(video_id, ReasonView::VideoUnplayable { reason: Some(reason), sub_reasons: subreasons_of(pd) });
    if status == "OK"@ {
        None
    } else if status == "LOGIN_REQUIRED"@ {
        if contains_seq(reason, "age"@) {
            Some(error_view(video_id, ReasonView::AgeRestricted))
        } else {
            Some(unplayable)
        }
    } else if contains_seq(reason, "Video unavailable"@) {
        Some(error_view(video_id, ReasonView::VideoUnavailable))
    } else {
        Some(unplayable)
    }
}

/// Checks whether a video can be played.
#[derive(Debug)]
pub struct PlayabilityAsserter;

impl PlayabilityAsserter {
    /// Checks the playability status of a player response: `Ok` when it is
    /// `OK`, else the error that explains why no transcript can be had.
    pub fn assert_playability(player_data: &serde_json::Value, video_id: &str) -> (res: Result<(), CouldNotRetrieveTranscript>)
        ensures
            match (res, playability_spec(json_model(*player_data), video_id@)) {
                (Ok(()), None) => true,
                (Err(e), Some(v)) => e@ == v,
                _ => false,
            },
    {
        let ps = json_get(player_data, "playabilityStatus");
        let status = match ps {
            Some(p) => get_str(p, "status"),
            None => None,
        };
        let status = match status {
            Some(s) => s,
            None => "ERROR",
        };
        let reason = match ps {
            Some(p) => get_str(p, "reason"),
            None => None,
        };
        let reason = match reason {
            Some(r) => r,
            None => "",
        };
        proof {
            reveal_strlit("ERROR");
            reveal_strlit("");
        }
        assert(status@ == status_of(json_model(*player_data)));
        assert(reason@ == reason_of(json_model(*player_data)));
        if str_eq(status, "OK") {
            Ok(())
        } else if str_eq(status, "LOGIN_REQUIRED") {
            if contains(reason, "age") {
                Err(CouldNotRetrieveTranscript {
                    video_id: owned(video_id),
                    reason: Some(CouldNotRetrieveTranscriptReason::AgeRestricted),
                })
            } else {
                Err(CouldNotRetrieveTranscript {
                    video_id: owned(video_id),
                    reason: Some(CouldNotRetrieveTranscriptReason::VideoUnplayable {
                        reason: Some(owned(reason)),
                        sub_reasons: Self::extract_subreasons(player_data),
                    }),
                })
            }
        } else if contains(reason, "Video unavailable") {
            Err(CouldNotRetrieveTranscript {
                video_id: owned(video_id),
                reason: Some(CouldNotRetrieveTranscriptReason::VideoUnavailable),
            })
        } else {
            Err(CouldNotRetrieveTranscript {
                video_id: owned(video_id),
                reason: Some(CouldNotRetrieveTranscriptReason::VideoUnplayable {
                    reason: Some(owned(reason)),
                    sub_reasons: Self::extract_subreasons(player_data),
                }),
            })
        }
    }

    /// The sub-reasons given on the error screen of a player response.
    fn extract_subreasons(player_data: &serde_json::Value) -> (res: Vec<String>)
        ensures
            strings_view(res@) == subreasons_of(json_model(*player_data)),
    {
        let mut res: Vec<String> = Vec::new();
        let runs = match json_get(player_data, "playabilityStatus") {
            Some(p) => match json_get(p, "errorScreen") {
                Some(e) => match json_get(e, "playerErrorMessageRenderer") {
                    Some(r) => match json_get(r, "subreason") {
                        Some(s) => get_array(s, "runs"),
                        None => None,
                    },
                    None => None,
                },
                None => None,
            },
            None => None,
        };
        match runs {
            None => {
                assert(strings_view(res@) =~= Seq::<Seq<char>>::empty());
                res
            },
            Some(runs) => {
                let ghost items = models_of(runs@);
                let mut i: usize = 0;
                assert(strings_view(res@) =~= run_texts(items.take(0)));
                while i < runs.len()
                    invariant
                        i <= runs@.len(),
                        items == models_of(runs@),
                        strings_view(res@) == run_texts(items.take(i as int)),
                    decreases runs.len() - i,
                {
                    proof {
                        let t = items.take(i + 1);
                        assert(t.drop_last() =~= items.take(i as int));
                        assert(t.last() == json_model(runs@[i as int]));
                    }
                    match get_str(&runs[i], "text") {
                        Some(t) => {
                            res.push(owned(t));
                        },
                        None => {},
                    }
                    i = i + 1;
                    assert(strings_view(res@) =~= run_texts(items.take(i as int)));
                }
                assert(items.take(runs@.len() as int) =~= items);
                res
            },
        }
    }
}


/// The value under `playabilityStatus.<key>` when it is a string.
pub open spec fn status_field(pd: JsonModel, key: Seq<char>) -> Option<Seq<char>> {
    match pd {
        JsonModel::Object(m) => if m.dom().contains("playabilityStatus"@) {
            match m["playabilityStatus"@] {
                JsonModel::Object(ps) => if ps.dom().contains(key) {
                    match ps[key] {
                        JsonModel::Str(t) => Some(t),
                        _ => None,
                    }
                } else {
                    None
                },
                _ => None,
            }
        } else {
            None
        },
        _ => None,
    }
}

/// When login is required, the video is age restricted exactly when the
/// reason mentions "age"; any other reason makes it unplayable, with that
/// reason and the sub-reasons. A status of `OK` is no error at all.
pub proof fn lemma_login_required_is_age_restriction_only_for_age(pd: JsonModel, video_id: Seq<char>, reason: Seq<char>)
    ensures
        status_field(pd, "status"@) == Some("OK"@) ==> playability_spec(pd, video_id) is None,
        status_field(pd, "status"@) == Some("LOGIN_REQUIRED"@) && status_field(pd, "reason"@) == Some(reason) ==> {
            &&& (playability_spec(pd, video_id) == Some(error_view(video_id, ReasonView::AgeRestricted)))
                <==> (exists|i: int| 0 <= i && i + 3 <= reason.len() && #[trigger] reason.subrange(i, i + 3) == "age"@)
            &&& !(exists|i: int| 0 <= i && i + 3 <= reason.len() && #[trigger] reason.subrange(i, i + 3) == "age"@)
                ==> playability_spec(pd, video_id) == Some(error_view(video_id,
                    ReasonView::VideoUnplayable { reason: Some(reason), sub_reasons: subreasons_of(pd) }))
        },
{
    reveal_strlit("age");
    reveal_strlit("OK");
    reveal_strlit("LOGIN_REQUIRED");
    assert("age"@.len() == 3);
    assert("OK"@ != "LOGIN_REQUIRED"@) by {
        assert("OK"@.len() != "LOGIN_REQUIRED"@.len());
    }
    if status_field(pd, "status"@) == Some("LOGIN_REQUIRED"@) && status_field(pd, "reason"@) == Some(reason) {
        assert(reason_of(pd) == reason);
        if exists|i: int| 0 <= i && i + 3 <= reason.len() && #[trigger] reason.subrange(i, i + 3) == "age"@ {
            let i = choose|i: int| 0 <= i && i + 3 <= reason.len() && #[trigger] reason.subrange(i, i + 3) == "age"@;
            assert(occurs_at(reason, "age"@, i));
        }
        if contains_seq(reason, "age"@) {
            let i = choose|i: int| occurs_at(reason, "age"@, i);
            assert(reason.subrange(i, i + 3) == "age"@);
        }
    }
}

} // verus!
