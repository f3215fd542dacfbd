//! YouTube Data API v3 and Live Streaming API: request URLs, how answers are read,
//! and what a half-provisioned broadcast leaves to clean up.
use vstd::prelude::*;
use vstd::utf8::encode_utf8;

use crate::error::{is_other, Error};
use crate::library::{created_privacy, new_row};
use crate::http::{failure_text, spec_status_display, success_code};
use crate::text::{has_substring, trimmed};
use crate::time::{spec_rfc3339, Timestamp};
use crate::url::{percent_encoded, url_encode};

verus! {

broadcast use vstd::string::group_string_axioms;

/// Base of every API request.
pub const API: &'static str = "https://www.googleapis.com/youtube/v3";

/// Everything needed to push to a freshly provisioned broadcast and to clean it up.
#[derive(Debug, Clone)]
pub struct ProvisionedBroadcast {
    pub broadcast_id: String,
    pub video_id: String,
    pub stream_id: String,
    pub rtmp_ingest: String,
    pub stream_key: String,
    pub title: String,
}

/// The provisioned broadcast: a live broadcast's video id is its broadcast id (the
/// watch URL of the broadcast resolves to the eventual video).
pub fn provisioned(
    title: &str,
    stream_id: String,
    rtmp_ingest: String,
    stream_key: String,
    broadcast_id: String,
) -> (p: ProvisionedBroadcast)
    ensures
        p.broadcast_id@ == broadcast_id@,
        p.video_id@ == broadcast_id@,
        p.stream_id@ == stream_id@,
        p.rtmp_ingest@ == rtmp_ingest@,
        p.stream_key@ == stream_key@,
        p.title@ == title@,
{
    let video_id = broadcast_id.clone();
    ProvisionedBroadcast {
        broadcast_id,
        video_id,
        stream_id,
        rtmp_ingest,
        stream_key,
        title: title.to_string(),
    }
}

/// The settings of a new live stream (the ingestion point ffmpeg pushes to).
#[derive(Debug, Clone, PartialEq, Eq)]
pub struct StreamSettings {
    pub title: String,
    pub frame_rate: String,
    pub ingestion_type: String,
    pub resolution: String,
}

/// A live stream titled `title`: 1080p at 60 frames a second over RTMP.
pub fn stream_settings(title: &str) -> (s: StreamSettings)
    ensures
        s.title@ == title@,
        s.frame_rate@ == "60fps"@,
        s.ingestion_type@ == "rtmp"@,
        s.resolution@ == "1080p"@,
{
    StreamSettings {
        title: title.to_string(),
        frame_rate: "60fps".to_string(),
        ingestion_type: "rtmp".to_string(),
        resolution: "1080p".to_string(),
    }
}

/// The settings of a new live broadcast.
#[derive(Debug, Clone, PartialEq, Eq)]
pub struct BroadcastSettings {
    pub title: String,
    /// RFC 3339 time the broadcast is scheduled for.
    pub scheduled_start_time: String,
    pub privacy_status: String,
    pub self_declared_made_for_kids: bool,
    pub enable_auto_start: bool,
    pub enable_auto_stop: bool,
    pub enable_monitor_stream: bool,
    pub latency_preference: String,
}

/// A live broadcast titled `title`, scheduled for `now` (with auto-start it goes live on
/// the first ingest whatever the scheduled time): private, not made for kids, started
/// and stopped by the ingest, no monitor stream, low latency.
pub fn broadcast_settings(title: &str, now: Timestamp) -> (s: BroadcastSettings)
    ensures
        s.title@ == title@,
        s.scheduled_start_time@ == spec_rfc3339(now.unix_secs(), now.subsec_nanos()),
        s.privacy_status@ == created_privacy(),
        !s.self_declared_made_for_kids,
        s.enable_auto_start,
        s.enable_auto_stop,
        !s.enable_monitor_stream,
        s.latency_preference@ == "low"@,
{
    BroadcastSettings {
        title: title.to_string(),
        scheduled_start_time: now.to_rfc3339(),
        privacy_status: "private".to_string(),
        self_declared_made_for_kids: false,
        enable_auto_start: true,
        enable_auto_stop: true,
        enable_monitor_stream: false,
        latency_preference: "low".to_string(),
    }
}

/// The log row made when a broadcast starts records the privacy that
/// `broadcast_settings` creates the broadcast with.
pub proof fn lemma_row_privacy_matches_broadcast(
    started_at: Timestamp,
    video_id: Seq<char>,
    title: Seq<char>,
)
    ensures
        new_row(started_at, video_id, title).privacy == Some(created_privacy()),
{
}

/// One clean-up call after provisioning failed part-way.
#[derive(Debug, Clone, PartialEq, Eq)]
pub enum Rollback {
    DeleteBroadcast(String),
    DeleteStream(String),
}

/// The text of a clean-up call: which resource and its id.
pub open spec fn rollback_view(r: Rollback) -> (bool, Seq<char>) {
    match r {
        Rollback::DeleteBroadcast(id) => (true, id@),
        Rollback::DeleteStream(id) => (false, id@),
    }
}

/// What to delete when provisioning fails after the stream `stream_id` was created:
/// the broadcast first (when it was created too), then the stream, so nothing is left
/// behind to leak on a retry.
pub fn rollback_steps(stream_id: &str, broadcast_id: Option<&str>) -> (r: Vec<Rollback>)
    ensures
        r@.map_values(|x: Rollback| rollback_view(x)) == match broadcast_id {
            Some(b) => seq![(true, b@), (false, stream_id@)],
            None => seq![(false, stream_id@)],
        },
{
    let mut r: Vec<Rollback> = Vec::new();
    if let Some(b) = broadcast_id {
        r.push(Rollback::DeleteBroadcast(b.to_string()));
    }
    r.push(Rollback::DeleteStream(stream_id.to_string()));
    proof {
        assert(r@.map_values(|x: Rollback| rollback_view(x)) =~= match broadcast_id {
            Some(b) => seq![(true, b@), (false, stream_id@)],
            None => seq![(false, stream_id@)],
        });
    }
    r
}

// ---------------------------------------------------------------------------
// Request URLs.
/// `API` followed by `path`.
pub fn api_url(path: &str) -> (r: String)
    ensures
        r@ == API@ + path@,
{
    let mut r = API.to_string();
    r.append(path);
    r
}

/// Percent-encoded text of `s`.
pub open spec fn enc(s: Seq<char>) -> Seq<char> {
    percent_encoded(encode_utf8(s))
}

/// URL that moves broadcast `id` to `complete`.
pub fn transition_url(id: &str) -> (r: String)
    ensures
        r@ == API@ + "/liveBroadcasts/transition?broadcastStatus=complete&id="@ + enc(id@)
            + "&part=id,status"@,
{
    let mut r = api_url("/liveBroadcasts/transition?broadcastStatus=complete&id=");
    let e = url_encode(id);
    r.append(e.as_str());
    r.append("&part=id,status");
    r
}

/// URL of broadcast `id` (for deletion).
pub fn broadcast_url(id: &str) -> (r: String)
    ensures
        r@ == API@ + "/liveBroadcasts?id="@ + enc(id@),
{
    let mut r = api_url("/liveBroadcasts?id=");
    let e = url_encode(id);
    r.append(e.as_str());
    r
}

/// URL of stream `id` (for deletion).
pub fn stream_url(id: &str) -> (r: String)
    ensures
        r@ == API@ + "/liveStreams?id="@ + enc(id@),
{
    let mut r = api_url("/liveStreams?id=");
    let e = url_encode(id);
    r.append(e.as_str());
    r
}

/// URL that binds broadcast `broadcast_id` to stream `stream_id`.
pub fn bind_url(broadcast_id: &str, stream_id: &str) -> (r: String)
    ensures
        r@ == API@ + "/liveBroadcasts/bind?id="@ + enc(broadcast_id@)
            + "&part=id,contentDetails&streamId="@ + enc(stream_id@),
{
    let mut r = api_url("/liveBroadcasts/bind?id=");
    let b = url_encode(broadcast_id);
    r.append(b.as_str());
    r.append("&part=id,contentDetails&streamId=");
    let s = url_encode(stream_id);
    r.append(s.as_str());
    r
}

/// URL that reads the snippet of video `id`.
pub fn video_url(id: &str) -> (r: String)
    ensures
        r@ == API@ + "/videos?id="@ + enc(id@) + "&part=snippet"@,
{
    let mut r = api_url("/videos?id=");
    let e = url_encode(id);
    r.append(e.as_str());
    r.append("&part=snippet");
    r
}

// ---------------------------------------------------------------------------
// Reading answers.
/// How an API answer with status `code` is taken: a 401 disconnects the account,
/// other failures are reported, success is decoded.
#[derive(Debug, Clone, Copy, PartialEq, Eq)]
pub enum ApiStatus {
    Unauthorized,
    Failed,
    Decode,
}

/// How an API answer with status `code` is taken.
pub fn api_status(code: u16) -> (r: ApiStatus)
    ensures
        code == 401 ==> r == ApiStatus::Unauthorized,
        code != 401 && !success_code(code) ==> r == ApiStatus::Failed,
        code != 401 && success_code(code) ==> r == ApiStatus::Decode,
{
    if code == 401 {
        ApiStatus::Unauthorized
    } else if !crate::http::is_success(code) {
        ApiStatus::Failed
    } else {
        ApiStatus::Decode
    }
}

/// The error for a failed API answer: `YouTube API <status>: <body>`.
pub fn api_failure(code: u16, body: &str) -> (e: Error)
    requires
        100 <= code <= 999,
    ensures
        is_other(e, "YouTube API "@ + spec_status_display(code) + ": "@ + body@),
{
    let mut m = "YouTube API ".to_string();
    let s = crate::http::status_text(code);
    m.append(s.as_str());
    m.append(": ");
    m.append(body);
    Error::Other(m)
}

/// Whether a failed transition to `complete` only says the broadcast needs no help:
/// already complete, in a state that cannot transition, or its stream inactive.
pub open spec fn benign_transition(body: Seq<char>) -> bool {
    has_substring(body, "redundantTransition"@) || has_substring(body, "invalidTransition"@)
        || has_substring(body, "errorStreamInactive"@)
}

/// A failed transition counts as benign exactly when its answer names one of three
/// reasons: an answer with `redundantTransition`, `invalidTransition` or
/// `errorStreamInactive` anywhere in it is benign, and an answer in which none of them
/// occurs, such as a quota error, is a real failure.
pub proof fn lemma_benign_only_for_listed_reasons(body: Seq<char>, before: Seq<char>, after: Seq<char>)
    ensures
        benign_transition(before + "redundantTransition"@ + after),
        benign_transition(before + "invalidTransition"@ + after),
        benign_transition(before + "errorStreamInactive"@ + after),
        (forall|i: int| 0 <= i && i + 19 <= body.len() ==> #[trigger] body.subrange(i, i + 19)
            != "redundantTransition"@) && (forall|i: int| 0 <= i && i + 17 <= body.len() ==> #[trigger]
            body.subrange(i, i + 17) != "invalidTransition"@) && (forall|i: int|
            0 <= i && i + 19 <= body.len() ==> #[trigger] body.subrange(i, i + 19)
                != "errorStreamInactive"@) ==> !benign_transition(body),
{
    reveal_strlit("redundantTransition");
    reveal_strlit("invalidTransition");
    reveal_strlit("errorStreamInactive");
    let ws = seq!["redundantTransition"@, "invalidTransition"@, "errorStreamInactive"@];
    assert forall|k: int| 0 <= k < 3 implies has_substring(before + #[trigger] ws[k] + after, ws[k]) by {
        let w = ws[k];
        let h = before + w + after;
        assert(h.subrange(before.len() as int, (before.len() + w.len()) as int) =~= w);
    }
    assert(ws[0] == "redundantTransition"@);
    assert(ws[1] == "invalidTransition"@);
    assert(ws[2] == "errorStreamInactive"@);
}

/// The outcome of a transition to `complete` that did not succeed, given its answer:
/// a benign refusal counts as done.
pub fn transition_failure(code: u16, body: &str) -> (r: Result<(), Error>)
    requires
        100 <= code <= 999,
    ensures
        benign_transition(body@) ==> r is Ok,
        !benign_transition(body@) ==> (r matches Err(e) && is_other(
            e,
            failure_text("liveBroadcasts.transition"@, code, body@),
        )),
{
    let cs = crate::text::chars_of(body);
    if crate::text::contains(&cs, "redundantTransition") || crate::text::contains(
        &cs,
        "invalidTransition",
    ) || crate::text::contains(&cs, "errorStreamInactive") {
        Ok(())
    } else {
        Err(crate::http::request_failed("liveBroadcasts.transition", code, body))
    }
}

/// A deletion succeeded: any 2xx answer, or 204 No Content.
pub open spec fn deleted(code: u16) -> bool {
    success_code(code) || code == 204
}

/// Whether a deletion answered with `code` succeeded.
pub fn delete_succeeded(code: u16) -> (r: bool)
    ensures
        r == deleted(code),
{
    crate::http::is_success(code) || code == 204
}

/// The first item of an API list, or `Error::Other(missing)` where the list is empty.
pub fn first_item<T>(items: Vec<T>, missing: &str) -> (r: Result<T, Error>)
    ensures
        items@.len() > 0 ==> r == Ok::<T, Error>(items@[0]),
        items@.len() == 0 ==> (r matches Err(e) && is_other(e, missing@)),
{
    let mut items = items;
    if items.len() == 0 {
        Err(crate::error::other(missing))
    } else {
        Ok(items.swap_remove(0))
    }
}

/// A new video title must have some non-blank text and at most 100 characters.
pub open spec fn title_error(title: Seq<char>) -> Option<Seq<char>> {
    if trimmed(title).len() == 0 {
        Some("title cannot be empty"@)
    } else if title.len() > 100 {
        Some("title cannot exceed 100 characters"@)
    } else {
        None
    }
}

/// Checks a new video title before anything is sent.
pub fn check_new_title(title: &str) -> (r: Result<(), Error>)
    ensures
        match title_error(title@) {
            Some(m) => r matches Err(e) && is_other(e, m),
            None => r is Ok,
        },
{
    let t = crate::text::trim(title);
    if t.as_str().is_empty() {
        return Err(crate::error::other("title cannot be empty"));
    }
    if title.unicode_len() > 100 {
        return Err(crate::error::other("title cannot exceed 100 characters"));
    }
    Ok(())
}

} // verus!
