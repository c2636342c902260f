//! The SpotiSync worker's bookkeeping: the messages it exchanges with the
//! UI, what a failed job turns into, when it is retried, and what a match
//! verdict or a review decision stores and queues.
use vstd::prelude::*;
use crate::http::str_eq;

verus! {

/// UI thread to worker thread.
#[derive(Clone, Debug)]
pub enum WorkerCommand {
    /// Import every playlist export in the inbox and queue what is missing.
    SyncInbox,
    /// From the review screen: accept or reject the stored candidate.
    ConfirmMatch { spotify_uri: String, accept: bool },
    Shutdown,
}

/// Worker thread to UI thread.
#[derive(Clone, Debug)]
pub enum WorkerEvent {
    SyncFinished { playlists: usize, tracks: usize },
    /// A track finished downloading: the library changed on disk.
    LibraryChanged,
    ReviewQueueChanged,
    Error(String),
}

/// How running the next queued job went.
pub enum JobOutcome {
    /// No job was due.
    NoJob,
    /// A track was downloaded into the library.
    Downloaded,
    /// A candidate now waits for review.
    NeedsReview,
    /// The job finished with nothing to report.
    Nothing,
    /// The job failed with this message.
    Failed(String),
}

/// What the worker does after a job.
pub struct AfterJob {
    /// What to tell the UI first.
    pub event: Option<WorkerEvent>,
    /// Sync the inbox again (a download can complete playlists) and report
    /// the sync when it succeeds.
    pub resync: bool,
    /// Pause briefly before the next job, so a backlog does not hammer the
    /// search service.
    pub pace: bool,
    /// Block for the next command, or the periodic timeout, instead.
    pub wait: bool,
}

/// The worker loop's decision after each job: a download is announced and
/// followed by a sync, a candidate for review and an error are announced,
/// and every job is followed by a short pause; with no job due, the worker
/// waits for a command.
pub fn after_job(o: JobOutcome) -> (a: AfterJob)
    ensures
        match o {
            JobOutcome::NoJob => a.event is None && !a.resync && !a.pace && a.wait,
            JobOutcome::Downloaded => a.event matches Some(WorkerEvent::LibraryChanged) && a.resync
                && a.pace && !a.wait,
            JobOutcome::NeedsReview => a.event matches Some(WorkerEvent::ReviewQueueChanged)
                && !a.resync && a.pace && !a.wait,
            JobOutcome::Nothing => a.event is None && !a.resync && a.pace && !a.wait,
            JobOutcome::Failed(m) => (a.event matches Some(WorkerEvent::Error(e)) && e@ == m@)
                && !a.resync && a.pace && !a.wait,
        },
{
    match o {
        JobOutcome::NoJob => AfterJob { event: None, resync: false, pace: false, wait: true },
        JobOutcome::Downloaded => AfterJob {
            event: Some(WorkerEvent::LibraryChanged),
            resync: true,
            pace: true,
            wait: false,
        },
        JobOutcome::NeedsReview => AfterJob {
            event: Some(WorkerEvent::ReviewQueueChanged),
            resync: false,
            pace: true,
            wait: false,
        },
        JobOutcome::Nothing => AfterJob { event: None, resync: false, pace: true, wait: false },
        JobOutcome::Failed(m) => AfterJob {
            event: Some(WorkerEvent::Error(m)),
            resync: false,
            pace: true,
            wait: false,
        },
    }
}

/// What an inbox sync went through.
#[derive(Clone, Copy, Debug)]
pub struct SyncReport {
    pub playlists: usize,
    pub tracks: usize,
}

impl SyncReport {
    pub fn new() -> (r: SyncReport)
        ensures
            r.playlists == 0 && r.tracks == 0,
    {
        SyncReport { playlists: 0, tracks: 0 }
    }

    /// Counts the tracks of one parsed export.
    pub fn add_tracks(&mut self, n: usize)
        requires
            old(self).tracks + n <= usize::MAX,
        ensures
            final(self).tracks == old(self).tracks + n,
            final(self).playlists == old(self).playlists,
    {
        self.tracks = self.tracks + n;
    }

    /// Counts one playlist synced.
    pub fn add_playlist(&mut self)
        requires
            old(self).playlists < usize::MAX,
        ensures
            final(self).playlists == old(self).playlists + 1,
            final(self).tracks == old(self).tracks,
    {
        self.playlists = self.playlists + 1;
    }
}

/// The kinds of queued job.
#[derive(Clone, Copy, Debug, PartialEq, Eq, Structural)]
pub enum JobKind {
    /// Search for a candidate for a wanted track.
    Match,
    /// Download an accepted candidate.
    Download,
    /// Anything else: the job fails.
    Unknown,
}

pub open spec fn job_kind_spec(kind: Seq<char>) -> JobKind {
    if kind == "match"@ {
        JobKind::Match
    } else if kind == "download"@ {
        JobKind::Download
    } else {
        JobKind::Unknown
    }
}

pub fn job_kind(kind: &str) -> (k: JobKind)
    ensures
        k == job_kind_spec(kind@),
{
    if str_eq(kind, "match") {
        JobKind::Match
    } else if str_eq(kind, "download") {
        JobKind::Download
    } else {
        JobKind::Unknown
    }
}

/// Attempts after which a failing job is given up.
pub const MAX_ATTEMPTS: i64 = 5;

/// What becomes of a job that failed after `attempts` earlier attempts.
#[derive(Clone, Copy, Debug, PartialEq, Eq, Structural)]
pub enum JobFailure {
    /// Give up: mark the job failed.
    Failed,
    /// Try again later, recording this many attempts.
    Retry { attempts: i64 },
}

pub open spec fn after_failure_spec(attempts: i64) -> JobFailure {
    if attempts + 1 >= MAX_ATTEMPTS {
        JobFailure::Failed
    } else {
        JobFailure::Retry { attempts: (attempts + 1) as i64 }
    }
}

pub fn after_failure(attempts: i64) -> (f: JobFailure)
    requires
        attempts < i64::MAX,
    ensures
        f == after_failure_spec(attempts),
{
    let a = attempts + 1;
    if a >= MAX_ATTEMPTS {
        JobFailure::Failed
    } else {
        JobFailure::Retry { attempts: a }
    }
}

/// A job is retried at most `MAX_ATTEMPTS - 1` times: the attempt count it
/// is retried with grows by one and stays below the limit.
pub proof fn lemma_retries_are_bounded(attempts: i64)
    requires
        attempts < i64::MAX,
    ensures
        after_failure_spec(attempts) matches JobFailure::Retry { attempts: a } ==> a == attempts + 1
            && a < MAX_ATTEMPTS,
        attempts >= MAX_ATTEMPTS - 1 ==> after_failure_spec(attempts) == JobFailure::Failed,
{
}

/// `2^k`.
pub open spec fn pow2_spec(k: nat) -> nat
    decreases k,
{
    if k == 0 {
        1
    } else {
        2 * pow2_spec((k - 1) as nat)
    }
}

/// Exponential backoff: 30 s doubled per attempt (the exponent capped at
/// 7), never more than an hour.
pub open spec fn backoff_spec(attempts: int) -> int {
    let k = if attempts < 7 {
        attempts
    } else {
        7
    };
    let b = 30 * pow2_spec(k as nat);
    if b < 3600 {
        b as int
    } else {
        3600
    }
}

/// Seconds to wait before retrying a job that has failed `attempts` times.
pub fn retry_backoff_secs(attempts: i64) -> (secs: i64)
    requires
        attempts >= 0,
    ensures
        secs == backoff_spec(attempts as int),
{
    let k = if attempts < 7 {
        attempts
    } else {
        7
    };
    let mut m: i64 = 1;
    let mut i: i64 = 0;
    while i < k
        invariant
            0 <= i <= k <= 7,
            m == pow2_spec(i as nat),
            m <= 128,
        decreases k - i,
    {
        m = m * 2;
        i += 1;
        assert(pow2_spec(i as nat) == 2 * pow2_spec((i - 1) as nat));
        assert(m <= 128) by {
            assert(pow2_spec(0) == 1);
            assert(pow2_spec(1) == 2);
            assert(pow2_spec(2) == 4);
            assert(pow2_spec(3) == 8);
            assert(pow2_spec(4) == 16);
            assert(pow2_spec(5) == 32);
            assert(pow2_spec(6) == 64);
            assert(pow2_spec(7) == 128);
        }
    }
    let b = 30 * m;
    if b < 3600 {
        b
    } else {
        3600
    }
}

/// The backoff never shrinks as attempts pile up, and never exceeds an hour.
pub proof fn lemma_backoff_monotone(a: int, b: int)
    requires
        0 <= a <= b,
    ensures
        backoff_spec(a) <= backoff_spec(b),
        30 <= backoff_spec(a) <= 3600,
{
    lemma_pow2_monotone(if a < 7 {
        a as nat
    } else {
        7
    }, if b < 7 {
        b as nat
    } else {
        7
    });
    lemma_pow2_positive(if a < 7 {
        a as nat
    } else {
        7
    });
}

proof fn lemma_pow2_positive(k: nat)
    ensures
        pow2_spec(k) >= 1,
    decreases k,
{
    if k > 0 {
        lemma_pow2_positive((k - 1) as nat);
    }
}

proof fn lemma_pow2_monotone(i: nat, j: nat)
    requires
        i <= j,
    ensures
        pow2_spec(i) <= pow2_spec(j),
    decreases j,
{
    if i < j {
        lemma_pow2_monotone(i, (j - 1) as nat);
        lemma_pow2_positive((j - 1) as nat);
    }
}

/// When a job that failed `attempts` times is next due, at `now` seconds.
pub fn retry_at(now: i64, attempts: i64) -> (t: i64)
    requires
        attempts >= 0,
        now + backoff_spec(attempts as int) <= i64::MAX,
    ensures
        t == now + backoff_spec(attempts as int),
{
    now + retry_backoff_secs(attempts)
}

/// How the best search result was judged (its score against the
/// auto-accept and review thresholds).
#[derive(Clone, Copy, Debug, PartialEq, Eq, Structural)]
pub enum Verdict {
    /// Good enough to download without asking.
    AutoAccept,
    /// Plausible: ask the user.
    Review,
    /// Too poor to keep.
    Reject,
}

/// What to store for a judged candidate, and what follows.
#[derive(Clone, Copy, Debug, PartialEq, Eq, Structural)]
pub struct MatchAction {
    /// Store the candidate's video id (otherwise store none).
    pub keep_candidate: bool,
    /// Store the decision as final.
    pub confirmed: bool,
    /// Queue a download of the candidate (unless one is already queued).
    pub queue_download: bool,
    /// The review queue changed.
    pub needs_review: bool,
}

pub open spec fn decide_match_spec(v: Verdict) -> MatchAction {
    match v {
        Verdict::AutoAccept => MatchAction {
            keep_candidate: true,
            confirmed: true,
            queue_download: true,
            needs_review: false,
        },
        Verdict::Review => MatchAction {
            keep_candidate: true,
            confirmed: false,
            queue_download: false,
            needs_review: true,
        },
        Verdict::Reject => MatchAction {
            keep_candidate: false,
            confirmed: false,
            queue_download: false,
            needs_review: false,
        },
    }
}

/// An auto-accepted candidate is stored as confirmed and downloaded; one
/// for review is stored unconfirmed and surfaces in the review queue; a
/// rejected one is stored without a video id, so it is not searched again.
pub fn decide_match(v: Verdict) -> (a: MatchAction)
    ensures
        a == decide_match_spec(v),
{
    match v {
        Verdict::AutoAccept => MatchAction {
            keep_candidate: true,
            confirmed: true,
            queue_download: true,
            needs_review: false,
        },
        Verdict::Review => MatchAction {
            keep_candidate: true,
            confirmed: false,
            queue_download: false,
            needs_review: true,
        },
        Verdict::Reject => MatchAction {
            keep_candidate: false,
            confirmed: false,
            queue_download: false,
            needs_review: false,
        },
    }
}

/// Whether syncing a wanted track that is not in the library queues a
/// match job for it: only when no decision is stored for it (a decided
/// match, confirmed or not, is never searched again) and no identical job
/// is already pending or running.
pub fn should_queue_match(has_match: bool, has_active_job: bool) -> (q: bool)
    ensures
        q == (!has_match && !has_active_job),
{
    !has_match && !has_active_job
}

/// What a review decision on a stored match does.
pub enum ConfirmAction {
    /// Nothing: no match stored, already decided, or nothing to accept.
    Nothing,
    /// Store the candidate as confirmed and queue its download.
    Accept { youtube_id: String },
    /// Store the decision as final with no video id.
    Reject,
}

/// A review decision on the stored match (`None` when there is none),
/// given whether it is already decided and its candidate's video id.
pub fn decide_confirm(stored: Option<(bool, Option<String>)>, accept: bool) -> (a: ConfirmAction)
    ensures
        match stored {
            None => a is Nothing,
            Some((confirmed, youtube_id)) => if confirmed {
                a is Nothing
            } else if accept {
                match youtube_id {
                    Some(y) => a matches ConfirmAction::Accept { youtube_id } && youtube_id@ == y@,
                    None => a is Nothing,
                }
            } else {
                a is Reject
            },
        },
{
    match stored {
        None => ConfirmAction::Nothing,
        Some((confirmed, youtube_id)) => {
            if confirmed {
                ConfirmAction::Nothing
            } else if accept {
                match youtube_id {
                    Some(y) => ConfirmAction::Accept { youtube_id: y },
                    None => ConfirmAction::Nothing,
                }
            } else {
                ConfirmAction::Reject
            }
        },
    }
}

/// Only an auto-accepted candidate is downloaded; one judged for review is
/// never downloaded before a person accepts it, and a rejected one keeps no
/// video id.
pub proof fn lemma_only_auto_accepted_downloads(v: Verdict)
    ensures
        decide_match_spec(v).queue_download <==> v == Verdict::AutoAccept,
        v == Verdict::Review ==> decide_match_spec(v).needs_review && !decide_match_spec(
            v,
        ).confirmed,
        v == Verdict::Reject ==> !decide_match_spec(v).keep_candidate,
{
}

} // verus!
