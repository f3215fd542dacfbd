//! Broadcast lifecycle decisions. The slot holds a broadcast exactly while it runs.
//! A start fills it; a stop only asks the encoder to quit and hands out what is
//! needed to wait for that; the watcher of the encoder is the one that empties it,
//! whether the exit was asked for or not.
use vstd::prelude::*;

use crate::error::Error;
use crate::text::{opt_text, trimmed};
use crate::time::{elapsed_nanos, whole_seconds, Timestamp, NANOS_PER_SEC};

verus! {

broadcast use vstd::string::group_string_axioms;

/// Below this many seconds a broadcast never reached YouTube in any meaningful way:
/// its YouTube resource is deleted and its log row dropped.
pub const MIN_LIVE_SECS: i64 = 5;

/// What the front end is told about the broadcast.
#[derive(Debug, Clone, Copy, PartialEq, Eq)]
pub struct LiveState {
    pub is_running: bool,
    pub started_at: Option<Timestamp>,
}

/// A running broadcast: when it started, and the handle of its watcher, which a stop
/// takes out to wait on (`None` once a stop has been asked).
pub struct Running<H> {
    pub started_at: Timestamp,
    pub handle: Option<H>,
}

/// The supervisor's state: the running broadcast, if any, and whether the global
/// hotkey is registered.
pub struct State<H> {
    running: Option<Running<H>>,
    hotkey_active: bool,
}

/// The live state reported for a slot.
pub open spec fn live_of<H>(slot: Option<Running<H>>) -> LiveState {
    match slot {
        Some(r) => LiveState { is_running: true, started_at: Some(r.started_at) },
        None => LiveState { is_running: false, started_at: None },
    }
}

/// The slot after a broadcast that started at `t`, watched through `h`, is installed.
pub open spec fn installed<H>(t: Timestamp, h: H) -> Option<Running<H>> {
    Some(Running { started_at: t, handle: Some(h) })
}

/// The slot once a stop has been asked: still full while the broadcast runs, its
/// watcher's handle handed out.
pub open spec fn stop_asked<H>(slot: Option<Running<H>>) -> Option<Running<H>> {
    match slot {
        Some(run) => Some(Running { started_at: run.started_at, handle: None }),
        None => None,
    }
}

/// What a stop gives back from a slot: the watcher's handle (`None` where an earlier
/// stop already took it), or the not-broadcasting error when idle.
pub open spec fn stop_result<H>(slot: Option<Running<H>>, r: Result<Option<H>, Error>) -> bool {
    match slot {
        Some(run) => r == Ok::<Option<H>, Error>(run.handle),
        None => r == Err::<Option<H>, Error>(Error::NotBroadcasting),
    }
}

impl<H> State<H> {
    /// The running broadcast, if any.
    pub closed spec fn slot(&self) -> Option<Running<H>> {
        self.running
    }

    /// Whether the global hotkey is registered.
    pub closed spec fn hotkey(&self) -> bool {
        self.hotkey_active
    }

    /// Whether the global hotkey is registered.
    pub fn hotkey_active(&self) -> (r: bool)
        ensures
            r == self.hotkey(),
    {
        self.hotkey_active
    }

    /// An idle supervisor, hotkey not registered.
    pub fn new() -> (s: State<H>)
        ensures
            s.slot() is None,
            !s.hotkey(),
    {
        State { running: None, hotkey_active: false }
    }

    /// Whether a broadcast is running.
    pub fn is_running(&self) -> (r: bool)
        ensures
            r == self.slot() is Some,
    {
        self.running.is_some()
    }

    /// The live state: running exactly when the slot is full, with its start time.
    pub fn snapshot(&self) -> (r: LiveState)
        ensures
            r == live_of(self.slot()),
    {
        match &self.running {
            Some(r) => LiveState { is_running: true, started_at: Some(r.started_at) },
            None => LiveState { is_running: false, started_at: None },
        }
    }

    /// A start may go ahead only while idle.
    pub fn check_can_start(&self) -> (r: Result<(), Error>)
        ensures
            r is Ok <==> self.slot() is None,
            r is Err ==> r == Err::<(), Error>(Error::AlreadyBroadcasting),
    {
        if self.running.is_some() {
            Err(Error::AlreadyBroadcasting)
        } else {
            Ok(())
        }
    }

    /// Records a broadcast that started at `started_at`; returns the new live state.
    pub fn install(&mut self, started_at: Timestamp, handle: H) -> (r: LiveState)
        ensures
            final(self).slot() == installed(started_at, handle),
            final(self).hotkey() == old(self).hotkey(),
            r == live_of(final(self).slot()),
    {
        self.running = Some(Running { started_at, handle: Some(handle) });
        LiveState { is_running: true, started_at: Some(started_at) }
    }

    /// Asks for a stop: hands out the watcher's handle, so that the caller can signal
    /// the encoder and wait for the watcher, and leaves the slot full (the watcher
    /// empties it); reports that nothing is running when idle.
    pub fn begin_stop(&mut self) -> (r: Result<Option<H>, Error>)
        ensures
            stop_result(old(self).slot(), r),
            final(self).slot() == stop_asked(old(self).slot()),
            final(self).hotkey() == old(self).hotkey(),
    {
        match self.running.take() {
            Some(run) => {
                self.running = Some(Running { started_at: run.started_at, handle: None });
                Ok(run.handle)
            },
            None => Err(Error::NotBroadcasting),
        }
    }

    /// Empties the slot once the encoder has exited: the watcher's last word on a
    /// broadcast.
    pub fn clear(&mut self)
        ensures
            final(self).slot() is None,
            final(self).hotkey() == old(self).hotkey(),
    {
        self.running = None;
    }

    /// Records whether the global hotkey is registered.
    pub fn set_hotkey_active(&mut self, active: bool)
        ensures
            final(self).slot() == old(self).slot(),
            final(self).hotkey() == active,
    {
        self.hotkey_active = active;
    }
}

/// A broadcast started at `t` and watched through `h`: a stop hands out `h` and
/// leaves it running, reported with its start time, so that a second start is still
/// refused; a second stop hands out nothing more; only the watcher's clearing makes
/// the supervisor idle, after which a stop is refused.
pub proof fn lemma_start_then_stop<H>(t: Timestamp, h: H)
    ensures
        live_of(installed(t, h)) == (LiveState { is_running: true, started_at: Some(t) }),
        stop_result(installed(t, h), Ok::<Option<H>, Error>(Some(h))),
        stop_asked(installed(t, h)) is Some,
        live_of(stop_asked(installed(t, h))) == live_of(installed(t, h)),
        stop_result(stop_asked(installed(t, h)), Ok::<Option<H>, Error>(None::<H>)),
        stop_asked(stop_asked(installed(t, h))) == stop_asked(installed(t, h)),
        live_of(None::<Running<H>>) == (LiveState { is_running: false, started_at: None }),
        stop_result(None::<Running<H>>, Err::<Option<H>, Error>(Error::NotBroadcasting)),
{
}

/// Asking for a stop never empties or fills the slot, nor changes what is reported:
/// a broadcast stays running until its watcher clears it.
pub proof fn lemma_stop_keeps_running<H>(slot: Option<Running<H>>)
    ensures
        stop_asked(slot) is Some <==> slot is Some,
        live_of(stop_asked(slot)) == live_of(slot),
{
}

// ---------------------------------------------------------------------------
// Start and finish of a broadcast.
/// The title typed in the UI, trimmed, if anything is left of it.
pub open spec fn custom_title_of(custom: Option<Seq<char>>) -> Option<Seq<char>> {
    match custom {
        Some(t) => if trimmed(t).len() > 0 {
            Some(trimmed(t))
        } else {
            None
        },
        None => None,
    }
}

/// The title a user typed, trimmed, or `None` where it is missing or blank (the
/// broadcast then gets the generated title).
pub fn custom_title(custom: Option<&str>) -> (r: Option<String>)
    ensures
        match r {
            Some(t) => custom_title_of(
                match custom {
                    Some(c) => Some(c@),
                    None => None,
                },
            ) == Some(t@),
            None => custom_title_of(
                match custom {
                    Some(c) => Some(c@),
                    None => None,
                },
            ) is None,
        },
{
    match custom {
        Some(c) => {
            let t = crate::text::trim(c);
            if t.as_str().is_empty() {
                None
            } else {
                Some(t)
            }
        },
        None => None,
    }
}

/// The short date-time text chrono writes with `%b %-d, %H:%M` (month abbreviation,
/// day without padding, 24-hour time) for the wall-clock instant (`secs`, `nanos`).
pub uninterp spec fn spec_short_stamp(secs: i64, nanos: u32) -> Seq<char>;

/// Calls `chrono::DateTime::<Utc>::from_timestamp`, `DateTime::naive_utc` and
/// `NaiveDateTime::format("%b %-d, %H:%M")` (through `to_string`). Claimed: the text is a
/// function of the instant alone.
#[verifier::external_body]
fn chrono_short_stamp(secs: i64, nanos: u32) -> (r: String)
    requires
        crate::time::valid_instant(secs as int, nanos as int),
    ensures
        r@ == spec_short_stamp(secs, nanos),
{
    chrono::DateTime::<chrono::Utc>::from_timestamp(secs, nanos)
        .unwrap()
        .naive_utc()
        .format("%b %-d, %H:%M")
        .to_string()
}

/// The generated title for a broadcast started at local wall-clock time `local` (the
/// local date and time written as if it were UTC): `Archeio · ` and the short stamp.
pub fn generated_title(local: Timestamp) -> (r: String)
    ensures
        r@ == "Archeio · "@ + spec_short_stamp(local.unix_secs(), local.subsec_nanos()),
{
    let stamp = local.parts();
    let mut r = "Archeio · ".to_string();
    let text = chrono_short_stamp(stamp.0, stamp.1);
    r.append(text.as_str());
    r
}

/// The RTMP address ffmpeg pushes to: the ingest address, a slash, the stream key.
pub fn ingest_url(rtmp_ingest: &str, stream_key: &str) -> (r: String)
    ensures
        r@ == rtmp_ingest@ + "/"@ + stream_key@,
{
    let mut r = rtmp_ingest.to_string();
    r.append("/");
    r.append(stream_key);
    r
}

/// What to tidy once the encoder of a broadcast has exited.
#[derive(Debug, Clone, PartialEq, Eq)]
pub struct Cleanup {
    /// YouTube broadcast to delete (it never went live).
    pub delete_broadcast: Option<String>,
    /// Log row to drop (the broadcast never went live).
    pub remove_row: Option<String>,
    /// Log row to mark as ended.
    pub end_row: Option<String>,
}

/// Whole seconds a broadcast that started at `start` had run at `now`.
pub open spec fn live_seconds(start: Timestamp, now: Timestamp) -> int {
    whole_seconds(
        elapsed_nanos(
            now.unix_secs() as int,
            now.subsec_nanos() as int,
            start.unix_secs() as int,
            start.subsec_nanos() as int,
        ),
    )
}

/// Whether a broadcast that started at `start` and ended at `now` ran long enough to
/// be kept: at least `MIN_LIVE_SECS` whole seconds.
pub open spec fn went_live(start: Timestamp, now: Timestamp) -> bool {
    live_seconds(start, now) >= MIN_LIVE_SECS
}

/// Outside leap seconds, how long a broadcast was live is the whole seconds on the time
/// line from its start to now, and a broadcast counts as having gone live (kept, its row
/// marked ended) exactly when it ran five seconds or more; one that ran less, or whose
/// end precedes its start, is dropped.
pub proof fn lemma_live_seconds_on_time_line(start: Timestamp, now: Timestamp)
    requires
        start.subsec_nanos() < NANOS_PER_SEC,
        now.subsec_nanos() < NANOS_PER_SEC,
    ensures
        ({
            let d = (now.unix_secs() * 1_000_000_000 + now.subsec_nanos()) - (start.unix_secs()
                * 1_000_000_000 + start.subsec_nanos());
            &&& d >= 0 ==> live_seconds(start, now) == d / 1_000_000_000
            &&& went_live(start, now) <==> d >= 5_000_000_000
        }),
{
    let d = (now.unix_secs() * 1_000_000_000 + now.subsec_nanos()) - (start.unix_secs()
        * 1_000_000_000 + start.subsec_nanos());
    let e = elapsed_nanos(
        now.unix_secs() as int,
        now.subsec_nanos() as int,
        start.unix_secs() as int,
        start.subsec_nanos() as int,
    );
    assert(e == d) by (nonlinear_arith)
        requires
            e == (now.unix_secs() - start.unix_secs()) * 1_000_000_000 + (now.subsec_nanos()
                - start.subsec_nanos()),
            d == (now.unix_secs() * 1_000_000_000 + now.subsec_nanos()) - (start.unix_secs()
                * 1_000_000_000 + start.subsec_nanos()),
    ;
    if d >= 5_000_000_000 {
        assert(d / 1_000_000_000 >= 5) by (nonlinear_arith)
            requires
                d >= 5_000_000_000,
        ;
    } else if d >= 0 {
        assert(d / 1_000_000_000 < 5) by (nonlinear_arith)
            requires
                0 <= d < 5_000_000_000,
        ;
    } else {
        assert((-d) / 1_000_000_000 >= 0) by (nonlinear_arith)
            requires
                d < 0,
        ;
    }
}

/// Tidying after a broadcast that started at `started_at` ended at `now`: one that ran
/// under `MIN_LIVE_SECS` seconds loses its YouTube broadcast and its log row; a longer
/// one has its log row marked as ended.
pub fn cleanup_plan(
    started_at: Timestamp,
    now: Timestamp,
    broadcast_id: Option<String>,
    library_row_id: Option<String>,
) -> (c: Cleanup)
    ensures
        !went_live(started_at, now) ==> {
            &&& opt_text(c.delete_broadcast) == opt_text(broadcast_id)
            &&& opt_text(c.remove_row) == opt_text(library_row_id)
            &&& c.end_row is None
        },
        went_live(started_at, now) ==> {
            &&& c.delete_broadcast is None
            &&& c.remove_row is None
            &&& opt_text(c.end_row) == opt_text(library_row_id)
        },
{
    let elapsed = now.seconds_since(&started_at);
    if elapsed < MIN_LIVE_SECS {
        Cleanup { delete_broadcast: broadcast_id, remove_row: library_row_id, end_row: None }
    } else {
        Cleanup { delete_broadcast: None, remove_row: None, end_row: library_row_id }
    }
}

/// Tidying after the encoder failed to start: the broadcast just provisioned would sit
/// in YouTube's `created` state for ever, so it is deleted; no log row exists yet.
pub fn cleanup_after_failed_spawn(broadcast_id: Option<String>) -> (c: Cleanup)
    ensures
        opt_text(c.delete_broadcast) == opt_text(broadcast_id),
        c.remove_row is None,
        c.end_row is None,
{
    Cleanup { delete_broadcast: broadcast_id, remove_row: None, end_row: None }
}

} // verus!

verus! {

// ---------------------------------------------------------------------------
// Watching the encoder.
/// What polling the encoder process found.
#[derive(Debug, Clone, Copy, PartialEq, Eq)]
pub enum ChildPoll {
    /// The process has exited.
    Exited,
    /// The process is still running.
    Running,
    /// The process could not be polled.
    PollFailed,
}

/// What the watcher does next.
#[derive(Debug, Clone, Copy, PartialEq, Eq)]
pub enum WatchStep {
    /// Stop watching; warn the user when the stream ended without being asked to.
    Finish { warn_user: bool },
    /// Sleep a quarter second and poll again.
    KeepWatching,
}

/// The watcher's next step after a poll, `stop_requested` read after the poll: an
/// encoder that exits on its own ends the watch with a warning to the user.
pub fn after_poll(poll: ChildPoll, stop_requested: bool) -> (r: WatchStep)
    ensures
        poll == ChildPoll::Exited ==> r == (WatchStep::Finish { warn_user: !stop_requested }),
        poll == ChildPoll::Running ==> r == WatchStep::KeepWatching,
        poll == ChildPoll::PollFailed ==> r == (WatchStep::Finish { warn_user: false }),
{
    match poll {
        ChildPoll::Exited => WatchStep::Finish { warn_user: !stop_requested },
        ChildPoll::Running => WatchStep::KeepWatching,
        ChildPoll::PollFailed => WatchStep::Finish { warn_user: false },
    }
}

/// How waiting (up to five seconds) for the encoder to quit after `q` went.
#[derive(Debug, Clone, Copy, PartialEq, Eq)]
pub enum QuitWait {
    Exited,
    WaitFailed,
    TimedOut,
}

/// What is left to do after asking the encoder to quit.
#[derive(Debug, Clone, Copy, PartialEq, Eq)]
pub enum QuitFollowUp {
    /// It exited cleanly.
    Nothing,
    /// Kill it.
    Kill,
    /// It ignored `q`: kill it and reap it.
    KillAndReap,
}

/// The follow-up to a quit request: an encoder that did not exit cleanly is killed,
/// and one that ignored the request is also reaped.
pub fn after_quit(wait: QuitWait) -> (r: QuitFollowUp)
    ensures
        wait == QuitWait::Exited ==> r == QuitFollowUp::Nothing,
        wait == QuitWait::WaitFailed ==> r == QuitFollowUp::Kill,
        wait == QuitWait::TimedOut ==> r == QuitFollowUp::KillAndReap,
{
    match wait {
        QuitWait::Exited => QuitFollowUp::Nothing,
        QuitWait::WaitFailed => QuitFollowUp::Kill,
        QuitWait::TimedOut => QuitFollowUp::KillAndReap,
    }
}

} // verus!
