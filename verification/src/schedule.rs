//! Scheduled work of sessions.

use crate::ids::{fresh_id, id_chars, id_text};
use crate::protocol::{reject_about, rejection_about, ErrorCode, Rejection};
use crate::text::starts_with;
use vstd::prelude::*;

verus! {

/// How a schedule is asked to change.
#[derive(Clone, Copy, Debug, PartialEq, Eq, Structural)]
pub enum ScheduleRequest {
    Upsert,
    Update,
    Delete,
}

/// How a schedule changed.
#[derive(Clone, Copy, Debug, PartialEq, Eq, Structural)]
pub enum ScheduleChange {
    Upserted,
    Updated,
    Deleted,
}

/// What is announced of a change that was made.
pub fn change_of(request: ScheduleRequest) -> (r: ScheduleChange)
    ensures
        r == match request {
            ScheduleRequest::Upsert => ScheduleChange::Upserted,
            ScheduleRequest::Update => ScheduleChange::Updated,
            ScheduleRequest::Delete => ScheduleChange::Deleted,
        },
{
    match request {
        ScheduleRequest::Upsert => ScheduleChange::Upserted,
        ScheduleRequest::Update => ScheduleChange::Updated,
        ScheduleRequest::Delete => ScheduleChange::Deleted,
    }
}

/// Whether a failure says that there is no such job.
pub open spec fn is_missing_job(message: Seq<char>) -> bool {
    "job not found:"@.is_prefix_of(message)
}

/// The start of the message where a change failed.
pub open spec fn failure_text(request: ScheduleRequest) -> &'static str {
    match request {
        ScheduleRequest::Upsert => "failed to upsert schedule: ",
        ScheduleRequest::Update => "failed to update schedule: ",
        ScheduleRequest::Delete => "failed to delete schedule: ",
    }
}

/// The answer where a schedule cannot be changed.
pub open spec fn schedule_refusal(request: ScheduleRequest, message: String) -> Rejection {
    if is_missing_job(message@) {
        rejection_about(ErrorCode::InvalidParams, "", message)
    } else {
        rejection_about(ErrorCode::InternalError, failure_text(request), message)
    }
}

/// The answer where a schedule cannot be changed: that there is no such job is
/// the client's fault.
pub fn refuse_schedule_change(request: ScheduleRequest, message: String) -> (r: Rejection)
    ensures
        r == schedule_refusal(request, message),
{
    if starts_with(message.as_str(), "job not found:") {
        return reject_about(ErrorCode::InvalidParams, "", message);
    }
    match request {
        ScheduleRequest::Upsert => reject_about(
            ErrorCode::InternalError,
            "failed to upsert schedule: ",
            message,
        ),
        ScheduleRequest::Update => reject_about(
            ErrorCode::InternalError,
            "failed to update schedule: ",
            message,
        ),
        ScheduleRequest::Delete => reject_about(
            ErrorCode::InternalError,
            "failed to delete schedule: ",
            message,
        ),
    }
}

/// The answer where the schedules cannot be listed.
pub fn refuse_schedule_list(error: String) -> (r: Rejection)
    ensures
        r == rejection_about(ErrorCode::InternalError, "failed to list schedules: ", error),
{
    reject_about(ErrorCode::InternalError, "failed to list schedules: ", error)
}

/// A command about the heartbeat of a session.
#[derive(Clone, Copy, Debug, PartialEq, Eq, Structural)]
pub enum HeartbeatAction {
    Clear,
    Begin,
    Pause,
    Resume,
    Status,
}

/// What is announced of a heartbeat command.
pub open spec fn change_announced(
    action: HeartbeatAction,
    has_job: bool,
) -> Option<ScheduleChange> {
    if !has_job {
        None
    } else {
        match action {
            HeartbeatAction::Clear => Some(ScheduleChange::Deleted),
            HeartbeatAction::Begin => Some(ScheduleChange::Upserted),
            HeartbeatAction::Pause | HeartbeatAction::Resume => Some(ScheduleChange::Updated),
            HeartbeatAction::Status => None,
        }
    }
}

/// What is announced of a heartbeat command: nothing where it named no job, or
/// where it only asked.
pub fn heartbeat_change(action: HeartbeatAction, has_job: bool) -> (r: Option<ScheduleChange>)
    ensures
        r == change_announced(action, has_job),
{
    if !has_job {
        return None;
    }
    match action {
        HeartbeatAction::Clear => Some(ScheduleChange::Deleted),
        HeartbeatAction::Begin => Some(ScheduleChange::Upserted),
        HeartbeatAction::Pause | HeartbeatAction::Resume => Some(ScheduleChange::Updated),
        HeartbeatAction::Status => None,
    }
}

/// A job that is due.
#[derive(Debug)]
pub struct DueJob {
    pub id: String,
    pub prompt: Option<String>,
    pub instruction: Option<String>,
}

/// What a job says to the session.
pub open spec fn job_prompt(job: DueJob) -> Seq<char> {
    match (job.prompt, job.instruction) {
        (Some(prompt), _) => prompt@,
        (None, Some(instruction)) => instruction@,
        (None, None) => "Scheduled heartbeat."@,
    }
}

/// The key under which a job is queued at one of its times.
pub open spec fn job_key(id: Seq<char>, nonce: u128) -> Seq<char> {
    "schedule:"@ + id + ":"@ + id_chars(nonce)
}

/// What a job pushes to the queue of its session: the text and the key. The
/// nonce tells one time from the others.
pub fn push_for_job(job: &DueJob, nonce: u128) -> (r: (String, String))
    ensures
        r.0@ == job_prompt(*job),
        r.1@ == job_key(job.id@, nonce),
{
    let prompt = match &job.prompt {
        Some(prompt) => prompt.clone(),
        None => match &job.instruction {
            Some(instruction) => instruction.clone(),
            None => "Scheduled heartbeat.".to_owned(),
        },
    };
    let mut key = "schedule:".to_owned();
    key.append(job.id.as_str());
    key.append(":");
    key.append(id_text(nonce).as_str());
    (prompt, key)
}

/// What the jobs that are due push to the queues of their sessions.
pub fn dispatch_due_schedule_jobs(due: &Vec<DueJob>) -> (r: Vec<(String, String)>)
    ensures
        r@.len() == due@.len(),
        forall|i: int|
            0 <= i < due@.len() ==> {
                &&& (#[trigger] r@[i]).0@ == job_prompt(due@[i])
                &&& exists|nonce: u128| r@[i].1@ == #[trigger] job_key(due@[i].id@, nonce)
            },
{
    let mut pushes: Vec<(String, String)> = Vec::new();
    let mut i: usize = 0;
    while i < due.len()
        invariant
            i <= due@.len(),
            pushes@.len() == i,
            forall|j: int|
                0 <= j < i ==> {
                    &&& (#[trigger] pushes@[j]).0@ == job_prompt(due@[j])
                    &&& exists|nonce: u128| pushes@[j].1@ == #[trigger] job_key(due@[j].id@, nonce)
                },
        decreases due@.len() - i,
    {
        let nonce: u128 = fresh_id();
        let ghost before = pushes@;
        let push = push_for_job(&due[i], nonce);
        pushes.push(push);
        assert(forall|j: int| 0 <= j < i ==> #[trigger] pushes@[j] == before[j]);
        assert(pushes@[i as int].1@ == job_key(due@[i as int].id@, nonce));
        i = i + 1;
    }
    pushes
}

/// What a job asks for is its prompt, else its instruction, else the usual one.
pub proof fn law_jobs_ask_for_their_prompt(job: DueJob, r: Seq<char>)
    requires
        r == job_prompt(job),
    ensures
        job.prompt is Some ==> r == job.prompt->0@,
        job.prompt is None && job.instruction is Some ==> r == job.instruction->0@,
        job.prompt is None && job.instruction is None ==> r == "Scheduled heartbeat."@,
{
}

/// Two runs of a job are told apart by what was drawn for them.
pub proof fn law_runs_of_a_job_have_their_own_key(id: Seq<char>, a: u128, b: u128)
    requires
        job_key(id, a) == job_key(id, b),
    ensures
        id_chars(a) == id_chars(b),
{
    let front = "schedule:"@ + id + ":"@;
    assert(job_key(id, a).skip(front.len() as int) =~= id_chars(a));
    assert(job_key(id, b).skip(front.len() as int) =~= id_chars(b));
}

/// A command about a heartbeat is announced as what it does to the job; one that
/// only asks, or that names no job, is not.
pub proof fn law_heartbeats_are_announced(action: HeartbeatAction, has_job: bool)
    ensures
        change_announced(action, has_job) is None <==> !has_job || action is Status,
        has_job && action is Clear ==> change_announced(action, has_job)->0 is Deleted,
        has_job && action is Begin ==> change_announced(action, has_job)->0 is Upserted,
        has_job && (action is Pause || action is Resume) ==> change_announced(
            action,
            has_job,
        )->0 is Updated,
{
}

/// A job that is not there is the client's fault, and any other failure the
/// server's; either way the client is told what went wrong.
pub proof fn law_missing_jobs_are_the_clients_fault(
    request: ScheduleRequest,
    message: String,
    r: Rejection,
)
    requires
        r == schedule_refusal(request, message),
    ensures
        "job not found:"@.is_prefix_of(message@) ==> r.code is InvalidParams,
        !"job not found:"@.is_prefix_of(message@) ==> r.code is InternalError,
        r.detail == Some(message),
{
}

} // verus!
