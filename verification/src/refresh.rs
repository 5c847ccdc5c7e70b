//! Follow-up refreshes after library changes: which stages get a durable marker,
//! when a stage may run, and the AudioMuse cleaning-then-analysis state machine whose
//! task ids survive between invocations.
use vstd::prelude::*;

use crate::bindings::{path_join, percent_encode, url_encode};
use vstd::utf8::encode_utf8;
use crate::text::{chars_of, opt_text, push_str, str_eq, string_of};

verus! {

/// A follow-up stage.
#[derive(Debug, Clone, Copy, PartialEq, Eq, Structural)]
pub enum Stage {
    Integrity,
    Navidrome,
    Audiomuse,
}

impl Stage {
    /// The stage name used in marker and report file names.
    pub open spec fn spec_name(self) -> Seq<char> {
        match self {
            Stage::Integrity => "integrity"@,
            Stage::Navidrome => "navidrome"@,
            Stage::Audiomuse => "audiomuse"@,
        }
    }

    /// The stage name used in marker and report file names.
    pub fn name(self) -> (r: &'static str)
        ensures
            r@ == self.spec_name(),
    {
        match self {
            Stage::Integrity => "integrity",
            Stage::Navidrome => "navidrome",
            Stage::Audiomuse => "audiomuse",
        }
    }
}

/// Options of the `refresh-after-cleanup` command.
#[derive(Debug, Clone)]
pub struct RefreshArgs {
    pub stage: Stage,
    /// Confirms that an external Navidrome scan succeeded.
    pub navidrome_scanned: bool,
}

/// The marker file name of a stage.
pub open spec fn marker_name(stage: Stage) -> Seq<char> {
    "pending-"@ + stage.spec_name() + ".json"@
}

/// The AudioMuse status path of a task: the task id percent-encoded.
pub open spec fn spec_status_path(task_id: Seq<char>) -> Seq<char> {
    "/api/status/"@ + percent_encode(encode_utf8(task_id))
}

/// The request path that polls an AudioMuse task.
pub fn status_path(task_id: &str) -> (r: String)
    ensures
        r@ == spec_status_path(task_id@),
{
    let mut v = chars_of("/api/status/");
    let enc = url_encode(task_id);
    push_str(&mut v, enc.as_str());
    string_of(v.as_slice())
}

/// The pending-work marker of a stage under the report directory.
pub fn marker(dir: &str, stage: Stage) -> (r: String)
    ensures
        r@ == crate::bindings::joined_path(dir@, marker_name(stage)),
{
    let mut v = chars_of("pending-");
    push_str(&mut v, stage.name());
    push_str(&mut v, ".json");
    let name = string_of(v.as_slice());
    path_join(dir, name.as_str())
}

/// The report file name of a completed stage.
pub open spec fn spec_report_name(stage: Stage, run_id: Seq<char>) -> Seq<char> {
    "refresh-"@ + stage.spec_name() + "-"@ + run_id + ".json"@
}

/// The report file name of a completed stage.
pub fn report_name(stage: Stage, run_id: &str) -> (r: String)
    ensures
        r@ == spec_report_name(stage, run_id@),
{
    let mut v = chars_of("refresh-");
    push_str(&mut v, stage.name());
    push_str(&mut v, "-");
    push_str(&mut v, run_id);
    push_str(&mut v, ".json");
    string_of(v.as_slice())
}

/// The stages that get a marker after a cleanup: none without an actual change;
/// otherwise each configured integration (Audio Integrity URL set, external Navidrome
/// rescan enabled, AudioMuse URL set), in this order.
pub open spec fn spec_stages_to_mark(changed: bool, integrity: bool, navidrome: bool, audiomuse: bool) -> Seq<Stage> {
    if !changed {
        Seq::empty()
    } else {
        (if integrity { seq![Stage::Integrity] } else { Seq::empty() }) + (if navidrome {
            seq![Stage::Navidrome]
        } else {
            Seq::empty()
        }) + (if audiomuse { seq![Stage::Audiomuse] } else { Seq::empty() })
    }
}

/// The stages to mark as pending after a cleanup.
pub fn stages_to_mark(changed: bool, integrity: bool, navidrome: bool, audiomuse: bool) -> (r: Vec<Stage>)
    ensures
        r@ == spec_stages_to_mark(changed, integrity, navidrome, audiomuse),
{
    let mut r: Vec<Stage> = Vec::new();
    if !changed {
        return r;
    }
    if integrity {
        r.push(Stage::Integrity);
    }
    if navidrome {
        r.push(Stage::Navidrome);
    }
    if audiomuse {
        r.push(Stage::Audiomuse);
    }
    proof {
        let a: Seq<Stage> = if integrity { seq![Stage::Integrity] } else { Seq::empty() };
        let b: Seq<Stage> = if navidrome { seq![Stage::Navidrome] } else { Seq::empty() };
        let c: Seq<Stage> = if audiomuse { seq![Stage::Audiomuse] } else { Seq::empty() };
        assert(r@ =~= a + b + c);
    }
    r
}

/// Law: a dry-run or a cleanup without changes creates no marker.
pub proof fn unchanged_runs_mark_nothing(integrity: bool, navidrome: bool, audiomuse: bool)
    ensures
        spec_stages_to_mark(false, integrity, navidrome, audiomuse).len() == 0,
{
}

/// Why a stage may not run now.
#[derive(Debug, Clone, Copy, PartialEq, Eq, Structural)]
pub enum RefreshError {
    /// The Navidrome stage needs `--navidrome-scanned`.
    NavidromeScanUnconfirmed,
    /// AudioMuse runs only after Integrity and Navidrome have finished.
    EarlierStagesPending,
    /// AudioMuse accepted a task but returned no task id.
    MissingTaskId,
}

/// Whether a pending stage may proceed: Navidrome only with the confirmation of an
/// external scan, AudioMuse only when neither the Integrity nor the Navidrome marker
/// remains.
pub open spec fn spec_may_proceed(
    stage: Stage,
    navidrome_scanned: bool,
    integrity_pending: bool,
    navidrome_pending: bool,
) -> Result<(), RefreshError> {
    match stage {
        Stage::Integrity => Ok(()),
        Stage::Navidrome => if navidrome_scanned {
            Ok(())
        } else {
            Err(RefreshError::NavidromeScanUnconfirmed)
        },
        Stage::Audiomuse => if navidrome_pending || integrity_pending {
            Err(RefreshError::EarlierStagesPending)
        } else {
            Ok(())
        },
    }
}

/// Checks the order of the follow-up stages.
pub fn may_proceed(stage: Stage, navidrome_scanned: bool, integrity_pending: bool, navidrome_pending: bool) -> (r: Result<
    (),
    RefreshError,
>)
    ensures
        r == spec_may_proceed(stage, navidrome_scanned, integrity_pending, navidrome_pending),
{
    match stage {
        Stage::Integrity => Ok(()),
        Stage::Navidrome => if navidrome_scanned {
            Ok(())
        } else {
            Err(RefreshError::NavidromeScanUnconfirmed)
        },
        Stage::Audiomuse => if navidrome_pending || integrity_pending {
            Err(RefreshError::EarlierStagesPending)
        } else {
            Ok(())
        },
    }
}

// ------------------------------------------------------------ AudioMuse

/// The durable state of a pending stage.
#[derive(Debug, Clone)]
pub struct Pending {
    pub run_id: String,
    pub changed_at: String,
    pub cleaning_done: bool,
    pub cleaning_job: Option<String>,
    pub analysis_job: Option<String>,
}

/// The pending state as plain values.
pub struct PendingView {
    pub run_id: Seq<char>,
    pub changed_at: Seq<char>,
    pub cleaning_done: bool,
    pub cleaning_job: Option<Seq<char>>,
    pub analysis_job: Option<Seq<char>>,
}

impl View for Pending {
    type V = PendingView;

    open spec fn view(&self) -> PendingView {
        PendingView {
            run_id: self.run_id@,
            changed_at: self.changed_at@,
            cleaning_done: self.cleaning_done,
            cleaning_job: opt_text(self.cleaning_job),
            analysis_job: opt_text(self.analysis_job),
        }
    }
}

/// The state of an AudioMuse task.
#[derive(Debug, Clone)]
pub enum JobState {
    Running,
    Finished,
    /// The task failed; the message says which and how.
    Failed(String),
}

/// Task states that mean success.
pub open spec fn is_finished_state(s: Seq<char>) -> bool {
    s == "SUCCESS"@ || s == "FINISHED"@ || s == "finished"@
}

/// Task states that mean the task is still queued or running.
pub open spec fn is_running_state(s: Seq<char>) -> bool {
    s == "NEW"@ || s == "PENDING"@ || s == "STARTED"@ || s == "PROGRESS"@ || s == "RUNNING"@ || s == "QUEUED"@
        || s == "queued"@
}

/// The failure message for a task.
pub open spec fn failure_message(id: Seq<char>, state_json: Seq<char>) -> Seq<char> {
    "AudioMuse job "@ + id + " did not succeed: "@ + state_json
}

/// The meaning of a task's `state` (given as text when it is a string, and as its
/// JSON text for the failure message).
pub open spec fn spec_job_state(id: Seq<char>, state: Option<Seq<char>>, state_json: Seq<char>) -> (bool, bool, Seq<char>) {
    match state {
        Some(s) => if is_finished_state(s) {
            (false, true, Seq::empty())
        } else if is_running_state(s) {
            (true, false, Seq::empty())
        } else {
            (false, false, failure_message(id, state_json))
        },
        None => (false, false, failure_message(id, state_json)),
    }
}

/// The job state as (running, finished, failure message).
pub open spec fn job_view(j: JobState) -> (bool, bool, Seq<char>) {
    match j {
        JobState::Running => (true, false, Seq::empty()),
        JobState::Finished => (false, true, Seq::empty()),
        JobState::Failed(m) => (false, false, m@),
    }
}

/// Reads a task's state.
pub fn job_state(id: &str, state: Option<&str>, state_json: &str) -> (r: JobState)
    ensures
        job_view(r) == spec_job_state(id@, match state {
            Some(s) => Some(s@),
            None => None,
        }, state_json@),
{
    let failed = || -> (m: String)
        ensures
            m@ == failure_message(id@, state_json@),
    {
        let mut v = chars_of("AudioMuse job ");
        push_str(&mut v, id);
        push_str(&mut v, " did not succeed: ");
        push_str(&mut v, state_json);
        string_of(v.as_slice())
    };
    match state {
        Some(s) => {
            if str_eq(s, "SUCCESS") || str_eq(s, "FINISHED") || str_eq(s, "finished") {
                JobState::Finished
            } else if str_eq(s, "NEW") || str_eq(s, "PENDING") || str_eq(s, "STARTED") || str_eq(s, "PROGRESS")
                || str_eq(s, "RUNNING") || str_eq(s, "QUEUED") || str_eq(s, "queued") {
                JobState::Running
            } else {
                JobState::Failed(failed())
            }
        },
        None => JobState::Failed(failed()),
    }
}

/// What to ask AudioMuse next.
#[derive(Debug, Clone)]
pub enum AudioMuseRequest {
    /// Poll the cleaning task.
    PollCleaning(String),
    /// Start cleaning (`clean_catalogue`).
    StartCleaning,
    /// Poll the analysis task.
    PollAnalysis(String),
    /// Start analysis of all albums (`num_recent_albums = 0`).
    StartAnalysis,
}

/// The request as plain values: (is a poll, is for cleaning, task id).
pub open spec fn request_view(r: AudioMuseRequest) -> (bool, bool, Seq<char>) {
    match r {
        AudioMuseRequest::PollCleaning(id) => (true, true, id@),
        AudioMuseRequest::StartCleaning => (false, true, Seq::empty()),
        AudioMuseRequest::PollAnalysis(id) => (true, false, id@),
        AudioMuseRequest::StartAnalysis => (false, false, Seq::empty()),
    }
}

/// The next request for a pending state: cleaning first (poll a saved task, else start
/// one), then analysis (poll a saved task, else start one).
pub open spec fn spec_request(p: PendingView) -> (bool, bool, Seq<char>) {
    if !p.cleaning_done {
        match p.cleaning_job {
            Some(id) => (true, true, id),
            None => (false, true, Seq::empty()),
        }
    } else {
        match p.analysis_job {
            Some(id) => (true, false, id),
            None => (false, false, Seq::empty()),
        }
    }
}

/// The next AudioMuse request.
pub fn next_request(p: &Pending) -> (r: AudioMuseRequest)
    ensures
        request_view(r) == spec_request(p@),
{
    if !p.cleaning_done {
        match &p.cleaning_job {
            Some(id) => AudioMuseRequest::PollCleaning(id.clone()),
            None => AudioMuseRequest::StartCleaning,
        }
    } else {
        match &p.analysis_job {
            Some(id) => AudioMuseRequest::PollAnalysis(id.clone()),
            None => AudioMuseRequest::StartAnalysis,
        }
    }
}

/// How one invocation continues after a reply.
#[derive(Debug, Clone)]
pub enum Step {
    /// Send this request next.
    Continue(AudioMuseRequest),
    /// Stop; `true` when cleaning and analysis have both succeeded.
    Done(bool),
    /// Stop with this failure; the failed task's id has been cleared for a retry.
    Failed(String),
}

/// The step as plain values: (continues with this request, or stops with this
/// result, or fails with this message).
pub open spec fn step_view(s: Step) -> (Option<(bool, bool, Seq<char>)>, Option<bool>, Option<Seq<char>>) {
    match s {
        Step::Continue(r) => (Some(request_view(r)), None, None),
        Step::Done(b) => (None, Some(b), None),
        Step::Failed(m) => (None, None, Some(m@)),
    }
}

/// The state and step after a task's state was read: a running task ends the
/// invocation; a finished cleaning task marks cleaning done and moves on to analysis
/// in the same invocation; a finished analysis task completes the stage; a failed
/// task clears its id (cleaning stays done if it was) and fails the invocation.
pub open spec fn spec_on_status(p: PendingView, state: (bool, bool, Seq<char>)) -> (
    PendingView,
    (Option<(bool, bool, Seq<char>)>, Option<bool>, Option<Seq<char>>),
) {
    let (running, finished, message) = state;
    if !p.cleaning_done {
        if running {
            (p, (None, Some(false), None))
        } else if finished {
            let q = PendingView { cleaning_done: true, ..p };
            (q, (Some(spec_request(q)), None, None))
        } else {
            (PendingView { cleaning_job: None, ..p }, (None, None, Some(message)))
        }
    } else {
        if running {
            (p, (None, Some(false), None))
        } else if finished {
            (p, (None, Some(true), None))
        } else {
            (PendingView { analysis_job: None, ..p }, (None, None, Some(message)))
        }
    }
}

/// Applies a polled task's state to the pending state.
pub fn on_status(p: &mut Pending, state: JobState) -> (r: Step)
    requires
        spec_request(old(p)@).0,
    ensures
        (final(p)@, step_view(r)) == spec_on_status(old(p)@, job_view(state)),
{
    if !p.cleaning_done {
        match state {
            JobState::Running => Step::Done(false),
            JobState::Finished => {
                p.cleaning_done = true;
                Step::Continue(next_request(p))
            },
            JobState::Failed(message) => {
                p.cleaning_job = None;
                Step::Failed(message)
            },
        }
    } else {
        match state {
            JobState::Running => Step::Done(false),
            JobState::Finished => Step::Done(true),
            JobState::Failed(message) => {
                p.analysis_job = None;
                Step::Failed(message)
            },
        }
    }
}

/// The state and step after a start request was answered: the returned task id is
/// saved (none when AudioMuse is busy with another task), and the invocation ends.
pub open spec fn spec_on_started(p: PendingView, task: Option<Seq<char>>) -> (
    PendingView,
    (Option<(bool, bool, Seq<char>)>, Option<bool>, Option<Seq<char>>),
) {
    if !p.cleaning_done {
        (PendingView { cleaning_job: task, ..p }, (None, Some(false), None))
    } else {
        (PendingView { analysis_job: task, ..p }, (None, Some(false), None))
    }
}

/// Applies the answer to a start request to the pending state.
pub fn on_started(p: &mut Pending, task: Option<String>) -> (r: Step)
    requires
        !spec_request(old(p)@).0,
    ensures
        (final(p)@, step_view(r)) == spec_on_started(old(p)@, opt_text(task)),
{
    if !p.cleaning_done {
        p.cleaning_job = task;
    } else {
        p.analysis_job = task;
    }
    Step::Done(false)
}

/// The answer to a start request: busy (HTTP 409) means no task and a later retry;
/// otherwise the task id must be present.
pub fn start_answer(busy: bool, task_id: Option<String>) -> (r: Result<Option<String>, RefreshError>)
    ensures
        busy ==> r == Ok::<Option<String>, RefreshError>(None),
        !busy ==> match task_id {
            Some(id) => r == Ok::<Option<String>, RefreshError>(Some(id)),
            None => r == Err::<Option<String>, RefreshError>(RefreshError::MissingTaskId),
        },
{
    if busy {
        Ok(None)
    } else {
        match task_id {
            Some(id) => Ok(Some(id)),
            None => Err(RefreshError::MissingTaskId),
        }
    }
}

/// Law: the AudioMuse states `NEW`, `PENDING`, `STARTED`, `PROGRESS`, `RUNNING`,
/// `QUEUED` and `queued` mean the task is still running; only `SUCCESS`, `FINISHED`
/// and `finished` mean it finished; any other state, or none, is a failure.
pub proof fn job_states_by_name(id: Seq<char>, state_json: Seq<char>, other: Seq<char>)
    ensures
        spec_job_state(id, Some("NEW"@), state_json) == (true, false, Seq::<char>::empty()),
        spec_job_state(id, Some("PENDING"@), state_json) == (true, false, Seq::<char>::empty()),
        spec_job_state(id, Some("STARTED"@), state_json) == (true, false, Seq::<char>::empty()),
        spec_job_state(id, Some("PROGRESS"@), state_json) == (true, false, Seq::<char>::empty()),
        spec_job_state(id, Some("RUNNING"@), state_json) == (true, false, Seq::<char>::empty()),
        spec_job_state(id, Some("QUEUED"@), state_json) == (true, false, Seq::<char>::empty()),
        spec_job_state(id, Some("queued"@), state_json) == (true, false, Seq::<char>::empty()),
        spec_job_state(id, Some("SUCCESS"@), state_json) == (false, true, Seq::<char>::empty()),
        spec_job_state(id, Some("FINISHED"@), state_json) == (false, true, Seq::<char>::empty()),
        spec_job_state(id, Some("finished"@), state_json) == (false, true, Seq::<char>::empty()),
        spec_job_state(id, Some(other), state_json).1 ==> other == "SUCCESS"@ || other == "FINISHED"@ || other
            == "finished"@,
        !spec_job_state(id, Some(other), state_json).0 && !spec_job_state(id, Some(other), state_json).1
            ==> spec_job_state(id, Some(other), state_json).2 == "AudioMuse job "@ + id + " did not succeed: "@
            + state_json,
        spec_job_state(id, None, state_json) == (false, false, "AudioMuse job "@ + id + " did not succeed: "@
            + state_json),
{
    reveal_strlit("NEW");
    reveal_strlit("PENDING");
    reveal_strlit("STARTED");
    reveal_strlit("PROGRESS");
    reveal_strlit("RUNNING");
    reveal_strlit("QUEUED");
    reveal_strlit("queued");
    reveal_strlit("SUCCESS");
    reveal_strlit("FINISHED");
    reveal_strlit("finished");
    assert(!is_finished_state("NEW"@)) by {
        assert("NEW"@[0] != "SUCCESS"@[0]);
        assert("NEW"@[0] != "FINISHED"@[0]);
        assert("NEW"@[0] != "finished"@[0]);
    }
    assert(!is_finished_state("PENDING"@)) by {
        assert("PENDING"@[0] != "SUCCESS"@[0]);
        assert("PENDING"@[0] != "FINISHED"@[0]);
        assert("PENDING"@[0] != "finished"@[0]);
    }
    assert(!is_finished_state("STARTED"@)) by {
        assert("STARTED"@[1] != "SUCCESS"@[1]);
        assert("STARTED"@[0] != "FINISHED"@[0]);
        assert("STARTED"@[0] != "finished"@[0]);
    }
    assert(!is_finished_state("PROGRESS"@)) by {
        assert("PROGRESS"@[0] != "SUCCESS"@[0]);
        assert("PROGRESS"@[0] != "FINISHED"@[0]);
        assert("PROGRESS"@[0] != "finished"@[0]);
    }
    assert(!is_finished_state("RUNNING"@)) by {
        assert("RUNNING"@[0] != "SUCCESS"@[0]);
        assert("RUNNING"@[0] != "FINISHED"@[0]);
        assert("RUNNING"@[0] != "finished"@[0]);
    }
    assert(!is_finished_state("QUEUED"@)) by {
        assert("QUEUED"@[0] != "SUCCESS"@[0]);
        assert("QUEUED"@[0] != "FINISHED"@[0]);
        assert("QUEUED"@[0] != "finished"@[0]);
    }
    assert(!is_finished_state("queued"@)) by {
        assert("queued"@[0] != "SUCCESS"@[0]);
        assert("queued"@[0] != "FINISHED"@[0]);
        assert("queued"@[0] != "finished"@[0]);
    }
}

/// Law: AudioMuse may proceed only when neither the Integrity nor the Navidrome
/// marker remains; either one stops it with `EarlierStagesPending`. Navidrome may
/// proceed exactly when the external scan is confirmed, and Integrity always may.
pub proof fn stage_order(navidrome_scanned: bool, integrity_pending: bool, navidrome_pending: bool)
    ensures
        spec_may_proceed(Stage::Audiomuse, navidrome_scanned, integrity_pending, true) == Err::<(), RefreshError>(
            RefreshError::EarlierStagesPending,
        ),
        spec_may_proceed(Stage::Audiomuse, navidrome_scanned, true, navidrome_pending) == Err::<(), RefreshError>(
            RefreshError::EarlierStagesPending,
        ),
        spec_may_proceed(Stage::Audiomuse, navidrome_scanned, false, false) == Ok::<(), RefreshError>(()),
        spec_may_proceed(Stage::Navidrome, true, integrity_pending, navidrome_pending) == Ok::<(), RefreshError>(()),
        spec_may_proceed(Stage::Navidrome, false, integrity_pending, navidrome_pending) == Err::<(), RefreshError>(
            RefreshError::NavidromeScanUnconfirmed,
        ),
        spec_may_proceed(Stage::Integrity, navidrome_scanned, integrity_pending, navidrome_pending) == Ok::<
            (),
            RefreshError,
        >(()),
{
}

/// Law: no duplicate tasks: a start request is only made when no task of that kind is
/// saved, and completed cleaning is never started again.
pub proof fn starts_only_without_saved_task(p: PendingView)
    ensures
        !spec_request(p).0 && spec_request(p).1 ==> !p.cleaning_done && p.cleaning_job is None,
        !spec_request(p).0 && !spec_request(p).1 ==> p.cleaning_done && p.analysis_job is None,
{
}

/// Law: a busy AudioMuse (no task id returned) leaves the pending work as it was, and
/// nothing is cancelled: the invocation simply ends.
pub proof fn busy_service_defers(p: PendingView)
    requires
        !spec_request(p).0,
    ensures
        spec_on_started(p, None).0 == p,
        spec_on_started(p, None).1 == (None::<(bool, bool, Seq<char>)>, Some(false), None::<Seq<char>>),
{
}

/// Law: failure of the analysis task keeps completed cleaning and clears the analysis
/// task for a retry; failure never marks anything as done.
pub proof fn failed_analysis_keeps_cleaning(p: PendingView, message: Seq<char>)
    requires
        p.cleaning_done,
    ensures
        spec_on_status(p, (false, false, message)).0.cleaning_done,
        spec_on_status(p, (false, false, message)).0.analysis_job is None,
        spec_on_status(p, (false, false, message)).1.2 == Some(message),
{
}

/// Law: over any step, completed cleaning stays completed, and a saved task id is
/// dropped only when the service reports that task as failed (a start records an id
/// only where none was saved).
pub proof fn saved_progress_is_kept(p: PendingView, state: (bool, bool, Seq<char>), task: Option<Seq<char>>)
    ensures
        spec_request(p).0 ==> {
            let q = spec_on_status(p, state).0;
            &&& p.cleaning_done ==> q.cleaning_done
            &&& q.cleaning_job != p.cleaning_job ==> !state.0 && !state.1 && !p.cleaning_done
            &&& q.analysis_job != p.analysis_job ==> !state.0 && !state.1 && p.cleaning_done
        },
        !spec_request(p).0 ==> {
            let q = spec_on_started(p, task).0;
            &&& q.cleaning_done == p.cleaning_done
            &&& q.cleaning_job != p.cleaning_job ==> p.cleaning_job is None
            &&& q.analysis_job != p.analysis_job ==> p.analysis_job is None
        },
{
}

/// Law: the stage completes only when cleaning is done and the analysis task
/// finished; an invocation makes at most two requests (after a finished cleaning
/// task, the analysis request ends it).
pub proof fn completion_needs_both_tasks(p: PendingView, state: (bool, bool, Seq<char>), second: (bool, bool, Seq<char>), task: Option<Seq<char>>)
    ensures
        spec_on_status(p, state).1.1 == Some(true) ==> p.cleaning_done && state.1,
        spec_on_started(p, task).1.0 is None,
        spec_on_status(p, state).1.0 is Some ==> {
            let q = spec_on_status(p, state).0;
            &&& q.cleaning_done
            &&& spec_on_status(q, second).1.0 is None
            &&& spec_on_started(q, task).1.0 is None
        },
{
}

} // verus!
