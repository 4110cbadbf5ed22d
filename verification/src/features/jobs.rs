//! Job Guardian — one JSON file per job in `<files>/sentinel/jobs/<id>.json`.
//! The guardian process only acts on jobs whose status is `Active`: it keeps
//! the main process alive while one exists.
//!
//! What a job is, and what each lifecycle call does to it, is decided here;
//! the job files are read and written by the embedding application.
use vstd::prelude::*;

use crate::build::config::path_join;
use crate::text::{chars_of, push_str_chars, string_of};

verus! {

#[verifier::external_type_specification]
#[verifier::external_body]
pub struct ExJsonValue(serde_json::Value);

/// Job status — the guardian only cares about active versus not.
#[derive(Debug, Clone, Copy, PartialEq, Eq, Structural)]
pub enum JobStatus {
    Pending,
    Active,
    Completed,
}

/// Guardian behaviour for a single job.
#[derive(Debug, Clone, Copy, PartialEq, Eq)]
pub struct JobConfig {
    /// Polling interval in milliseconds. Default: 500.
    pub poll_interval_ms: u64,
    /// Delay before starting the main process after detecting it is dead.
    /// Default: 0.
    pub start_main_delay_ms: u64,
    /// Delay before the heads-up broadcast when the main process is alive.
    /// Default: 200.
    pub heads_up_delay_ms: u64,
    /// Whether completing the job removes its file. Default: true.
    pub auto_remove_on_complete: bool,
}

impl Default for JobConfig {
    fn default() -> (r: Self)
        ensures
            r.poll_interval_ms == 500,
            r.start_main_delay_ms == 0,
            r.heads_up_delay_ms == 200,
            r.auto_remove_on_complete,
    {
        JobConfig {
            poll_interval_ms: 500,
            start_main_delay_ms: 0,
            heads_up_delay_ms: 200,
            auto_remove_on_complete: true,
        }
    }
}

/// A job.
#[derive(Debug)]
pub struct Job {
    /// Unique job identifier (the consumer chooses it).
    pub id: String,
    /// Job status — the guardian only acts on active jobs.
    pub status: JobStatus,
    /// Opaque JSON payload — never read here; the consumer uses it.
    pub payload: serde_json::Value,
    /// Guardian behaviour settings.
    pub config: JobConfig,
}

/// Errors from the job guardian API.
#[derive(Debug, Clone, PartialEq, Eq)]
pub enum JobGuardianError {
    Io(String),
    Parse(String),
    NotFound(String),
}

impl JobGuardianError {
    /// The rendered message.
    pub fn to_text(&self) -> (s: String)
        ensures
            s@ == match self {
                JobGuardianError::Io(m) => "I/O error: "@ + m@,
                JobGuardianError::Parse(m) => "JSON parse error: "@ + m@,
                JobGuardianError::NotFound(m) => "job not found: "@ + m@,
            },
    {
        let (prefix, m) = match self {
            JobGuardianError::Io(m) => ("I/O error: ", m),
            JobGuardianError::Parse(m) => ("JSON parse error: ", m),
            JobGuardianError::NotFound(m) => ("job not found: ", m),
        };
        let mut out = chars_of(prefix);
        push_str_chars(&mut out, m.as_str());
        string_of(out.as_slice())
    }
}

/// What completing a job does to its file.
#[derive(Debug, Clone, Copy, PartialEq, Eq)]
pub enum Completion {
    /// Remove the file.
    Remove,
    /// Keep the file with the job marked completed.
    MarkCompleted,
}

/// The status an activation leaves: a pending job becomes active; any
/// other is left as it is.
pub open spec fn activated(s: JobStatus) -> JobStatus {
    if s == JobStatus::Pending {
        JobStatus::Active
    } else {
        s
    }
}

/// The status a deactivation leaves: always pending.
pub open spec fn deactivated(s: JobStatus) -> JobStatus {
    JobStatus::Pending
}

impl Job {
    /// A newly registered job: pending, with the given payload and config.
    pub fn new(id: String, payload: serde_json::Value, config: JobConfig) -> (r: Job)
        ensures
            r.id == id,
            r.status == JobStatus::Pending,
            r.payload == payload,
            r.config == config,
    {
        Job { id, status: JobStatus::Pending, payload, config }
    }

    /// Activate a pending job. Returns whether the job changed (and so must
    /// be written back); an active or completed job is left as it is.
    pub fn activate(&mut self) -> (changed: bool)
        ensures
            final(self).status == activated(old(self).status),
            changed == (old(self).status == JobStatus::Pending),
            final(self).id == old(self).id,
            final(self).payload == old(self).payload,
            final(self).config == old(self).config,
    {
        if self.status == JobStatus::Pending {
            self.status = JobStatus::Active;
            true
        } else {
            false
        }
    }

    /// Deactivate a job: set it back to pending without removing it, so a
    /// later trigger can activate it again. Returns whether the job changed.
    pub fn deactivate(&mut self) -> (changed: bool)
        ensures
            final(self).status == deactivated(old(self).status),
            changed == (old(self).status != JobStatus::Pending),
            final(self).id == old(self).id,
            final(self).payload == old(self).payload,
            final(self).config == old(self).config,
    {
        if self.status != JobStatus::Pending {
            self.status = JobStatus::Pending;
            true
        } else {
            false
        }
    }

    /// Complete the job: its file is removed when the config says so,
    /// otherwise the job is marked completed and written back.
    pub fn complete(&mut self) -> (r: Completion)
        ensures
            old(self).config.auto_remove_on_complete ==> r == Completion::Remove
                && *final(self) == *old(self),
            !old(self).config.auto_remove_on_complete ==> r == Completion::MarkCompleted
                && final(self).status == JobStatus::Completed,
            final(self).id == old(self).id,
            final(self).payload == old(self).payload,
            final(self).config == old(self).config,
    {
        if self.config.auto_remove_on_complete {
            Completion::Remove
        } else {
            self.status = JobStatus::Completed;
            Completion::MarkCompleted
        }
    }

    /// Whether the guardian acts on this job.
    pub fn is_active(&self) -> (r: bool)
        ensures
            r == (self.status == JobStatus::Active),
    {
        self.status == JobStatus::Active
    }
}

/// The file of the job `id` in the jobs directory `dir`: `<dir>/<id>.json`.
pub fn job_path(dir: &str, id: &str) -> (r: String)
    ensures
        r@ == path_join(dir@, id@ + ".json"@),
{
    let mut name = chars_of(id);
    push_str_chars(&mut name, ".json");
    let n = string_of(name.as_slice());
    crate::build::config::join_path(dir, n.as_str())
}

/// The jobs directory under the app's files directory:
/// `<files>/sentinel/jobs`.
pub fn jobs_dir_in(files_dir: &str) -> (r: String)
    ensures
        r@ == path_join(path_join(files_dir@, "sentinel"@), "jobs"@),
{
    let s = crate::build::config::join_path(files_dir, "sentinel");
    crate::build::config::join_path(s.as_str(), "jobs")
}

/// A deactivation followed by an activation brings any job back to active,
/// and an activation followed by a deactivation leaves it pending: the
/// snooze cycle of a job.
pub proof fn law_snooze_cycle(s: JobStatus)
    ensures
        activated(deactivated(s)) == JobStatus::Active,
        deactivated(activated(s)) == JobStatus::Pending,
        deactivated(deactivated(s)) == deactivated(s),
        activated(activated(s)) == activated(s),
{
}

} // verus!
