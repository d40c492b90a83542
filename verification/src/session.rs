//! The session orchestrator's state: one progress slot per requested
//! video, the session's write-once cancellation signal, and the rules
//! that turn task outcomes into error-sink events and cache cleanup.
//!
//! Each per-video pipeline runs concurrently outside; the state here is
//! owned by the orchestrator alone, and these functions fix what it does
//! with every update it receives.
use vstd::prelude::*;

verus! {

use vstd::arithmetic::div_mod::lemma_div_by_multiple;
use vstd::arithmetic::div_mod::lemma_div_is_ordered;
use vstd::string::StrSliceExecFns;
use vstd::string::StringSliceAdditionalSpecFns;

use crate::error::DownloadError;
use crate::manifest::Resolution;
use crate::text::append_bytes;
use crate::text::dec_signed;
use crate::text::i32_to_dec;

/// One requested lecture: its remote identity and user-facing naming.
#[derive(Debug, Clone)]
pub struct Video {
    pub ttid: i32,
    pub topic: String,
    pub subject_name: String,
    pub number: i32,
}

/// Persisted user preferences: the resolution and an optional fixed
/// download host that bypasses probing.
#[derive(Debug, Clone)]
pub struct Settings {
    pub resolution: Resolution,
    pub base: Option<String>,
}

/// What the error sink receives for one failed video.
#[derive(Debug, Clone)]
pub struct DownloadErrorEvent {
    pub errors: Vec<Vec<u8>>,
}

/// The settings a session runs with when none were loaded: high
/// resolution, no fixed host.
pub fn resolve_settings(loaded: Option<Settings>) -> (r: Settings)
    ensures
        match loaded {
            Some(s) => r == s,
            None => r.resolution is HighRes && r.base is None,
        },
{
    match loaded {
        Some(s) => s,
        None => Settings { resolution: Resolution::HighRes, base: None },
    }
}

/// Ambient configuration made explicit: the API base, the mirror
/// candidates, and the retry bound applied to each network call.
pub struct EngineConfig {
    pub api_base: Vec<u8>,
    pub remotes: Vec<Vec<u8>>,
    pub max_retry_count: usize,
}

/// One download session's input: the opaque bearer token, where outputs
/// go, the resolution, an optional host override and the ordered videos.
pub struct DownloadRequest {
    pub auth_token: String,
    pub destination_folder: String,
    pub resolution: Resolution,
    pub override_host: Option<Vec<u8>>,
    pub videos: Vec<Video>,
}

/// Sum of a progress array.
pub open spec fn sum_of(s: Seq<u64>) -> int
    decreases s.len(),
{
    if s.len() == 0 {
        0
    } else {
        sum_of(s.drop_last()) + s.last()
    }
}

proof fn lemma_sum_le_100(s: Seq<u64>)
    requires
        forall|i: int| 0 <= i < s.len() ==> s[i] <= 100,
    ensures
        sum_of(s) <= 100 * s.len(),
        sum_of(s) >= 0,
    decreases s.len(),
{
    if s.len() > 0 {
        lemma_sum_le_100(s.drop_last());
    }
}

/// The value a slot takes when `percent` is reported for it: clamped into
/// [0,100], and never below the slot's current value, so one task's
/// reported percent cannot decrease within a session.
pub open spec fn spec_new_percent(current: u64, percent: u64) -> u64 {
    let clamped: u64 = if percent > 100 {
        100u64
    } else {
        percent
    };
    if clamped > current {
        clamped
    } else {
        current
    }
}

/// Law: a slot's percent stays in [0,100] and never decreases, whatever
/// is reported for it.
pub proof fn lemma_slot_percent_monotone_and_bounded(current: u64, percent: u64)
    requires
        current <= 100,
    ensures
        current <= spec_new_percent(current, percent) <= 100,
{
}

/// One session's aggregation state. The cancellation flag is the shared
/// signal's value: set once by cancel, replaced only by a new session.
pub struct Session {
    pub progress: Vec<u64>,
    pub cancelled: bool,
}

impl Session {
    /// Every slot holds a percent.
    pub open spec fn wf(self) -> bool {
        forall|i: int| 0 <= i < self.progress@.len() ==> self.progress@[i] <= 100
    }

    /// A fresh session: one zeroed slot per requested video, signal clear.
    pub fn new(num_tasks: usize) -> (r: Session)
        ensures
            r.wf(),
            r.progress@.len() == num_tasks,
            forall|i: int| 0 <= i < num_tasks ==> r.progress@[i] == 0,
            !r.cancelled,
    {
        let mut progress: Vec<u64> = Vec::new();
        let mut i: usize = 0;
        while i < num_tasks
            invariant
                i <= num_tasks,
                progress@.len() == i,
                forall|j: int| 0 <= j < i ==> progress@[j] == 0,
            decreases num_tasks - i,
        {
            progress.push(0);
            i += 1;
        }
        Session { progress, cancelled: false }
    }

    /// Flips the session's signal; it stays set for the session's rest.
    pub fn cancel(&mut self)
        ensures
            final(self).cancelled,
            final(self).progress == old(self).progress,
    {
        self.cancelled = true;
    }

    /// The race every task runs against the signal before starting work:
    /// a cancelled session resolves the task as Cancelled.
    pub fn task_gate(&self) -> (r: Result<(), DownloadError>)
        ensures
            r is Ok <==> !self.cancelled,
            r matches Err(e) ==> e is Cancelled,
    {
        if self.cancelled {
            Err(DownloadError::Cancelled)
        } else {
            Ok(())
        }
    }

    /// Takes one progress update for a task slot. The slot moves to the
    /// reported percent, clamped and never backwards.
    pub fn record_progress(&mut self, slot: usize, percent: u64)
        requires
            old(self).wf(),
            slot < old(self).progress@.len(),
        ensures
            final(self).wf(),
            final(self).progress@ == old(self).progress@.update(
                slot as int,
                spec_new_percent(old(self).progress@[slot as int], percent),
            ),
            final(self).cancelled == old(self).cancelled,
    {
        let clamped: u64 = if percent > 100 {
            100
        } else {
            percent
        };
        let current = self.progress[slot];
        let target: u64 = if clamped > current {
            clamped
        } else {
            current
        };
        self.progress.set(slot, target);
    }

    /// The session-level percent: the arithmetic mean over all slots,
    /// always within [0,100].
    pub fn mean_percent(&self) -> (r: u64)
        requires
            self.wf(),
            self.progress@.len() > 0,
        ensures
            r == sum_of(self.progress@) / self.progress@.len() as int,
            r <= 100,
    {
        let n = self.progress.len();
        let mut acc: u128 = 0;
        let mut i: usize = 0;
        while i < n
            invariant
                i <= n,
                n == self.progress@.len(),
                self.wf(),
                acc == sum_of(self.progress@.subrange(0, i as int)),
                acc <= 100 * i,
            decreases n - i,
        {
            assert(self.progress@.subrange(0, i + 1 as int).drop_last() =~= self.progress@.subrange(
                0,
                i as int,
            ));
            acc = acc + self.progress[i] as u128;
            i += 1;
        }
        assert(self.progress@.subrange(0, n as int) =~= self.progress@);
        proof {
            lemma_sum_le_100(self.progress@);
            lemma_div_is_ordered(sum_of(self.progress@), 100 * n as int, n as int);
            lemma_div_by_multiple(100, n as int);
        }
        (acc / n as u128) as u64
    }
}

/// How one finished task resolves.
pub enum TaskOutcome {
    /// The pipeline produced its output file; carries the lecture id.
    Completed { ttid: i32 },
    /// The pipeline failed; carries the video's user-facing ordinal and
    /// the failure.
    Failed { number: i32, error: DownloadError },
}

/// What the orchestrator does with one resolved task. It never stops
/// draining the remaining tasks, whichever variant comes out.
pub enum TaskReport {
    /// Success: the lecture's working directory (named after its id) is
    /// removed from the cache.
    RemoveCache { dir_name: Vec<u8> },
    /// Failure: the error sink receives the video's ordinal and the
    /// failure text.
    EmitErrors { event: DownloadErrorEvent },
}

/// The per-lecture working directory's name inside the cache.
pub fn lecture_dir_name(ttid: i32) -> (r: Vec<u8>)
    ensures
        r@ == "Lecture_".spec_bytes() + dec_signed(ttid as int),
{
    let mut r = ("Lecture_").as_bytes_vec();
    let digits = i32_to_dec(ttid);
    append_bytes(&mut r, &digits);
    r
}

/// Resolves one task: a completed lecture's cache entry is deleted; a
/// failure is itemized for the error sink, naming the video's ordinal,
/// exactly once per failed video.
pub fn report_task_outcome(outcome: &TaskOutcome) -> (r: TaskReport)
    ensures
        match outcome {
            TaskOutcome::Completed { ttid } => r matches TaskReport::RemoveCache{dir_name}
                && dir_name@ == "Lecture_".spec_bytes() + dec_signed(*ttid as int),
            TaskOutcome::Failed { number, error } => r matches TaskReport::EmitErrors{event}
                && event.errors.deep_view() == seq![
                "Failed to download Lecture-".spec_bytes() + dec_signed(*number as int),
                error.spec_message(),
            ],
        },
{
    match outcome {
        TaskOutcome::Completed { ttid } => {
            TaskReport::RemoveCache { dir_name: lecture_dir_name(*ttid) }
        },
        TaskOutcome::Failed { number, error } => {
            let mut headline = ("Failed to download Lecture-").as_bytes_vec();
            let digits = i32_to_dec(*number);
            append_bytes(&mut headline, &digits);
            let mut errors: Vec<Vec<u8>> = Vec::new();
            errors.push(headline);
            errors.push(error.message());
            assert(errors.deep_view() =~~= seq![
                "Failed to download Lecture-".spec_bytes() + dec_signed(*number as int),
                error.spec_message(),
            ]);
            TaskReport::EmitErrors { event: DownloadErrorEvent { errors } }
        },
    }
}

} // verus!
