use mobile_sentinel::features::jobs::{
    job_path, jobs_dir_in, Completion, Job, JobConfig, JobGuardianError, JobStatus,
};

#[test]
fn job_config_defaults_are_sensible() {
    let cfg = JobConfig::default();
    assert_eq!(cfg.poll_interval_ms, 500);
    assert_eq!(cfg.start_main_delay_ms, 0);
    assert_eq!(cfg.heads_up_delay_ms, 200);
    assert!(cfg.auto_remove_on_complete);
}

#[test]
fn activate_deactivate_cycle_follows_the_snooze_lifecycle() {
    let mut job = Job::new(
        "test-deactivate".into(),
        serde_json::Value::Null,
        JobConfig::default(),
    );
    assert_eq!(job.status, JobStatus::Pending);
    assert!(job.activate());
    assert_eq!(job.status, JobStatus::Active);
    assert!(job.deactivate());
    assert_eq!(job.status, JobStatus::Pending);
    assert!(job.activate());
    assert_eq!(job.status, JobStatus::Active);
    assert!(!job.activate());
    assert!(job.deactivate());
    assert!(!job.deactivate());
    assert_eq!(job.status, JobStatus::Pending);
}

#[test]
fn completing_removes_or_marks_completed_per_config() {
    let mut job = Job::new("a".into(), serde_json::Value::Null, JobConfig::default());
    assert_eq!(job.complete(), Completion::Remove);
    assert_eq!(job.status, JobStatus::Pending);
    let keep = JobConfig {
        auto_remove_on_complete: false,
        ..JobConfig::default()
    };
    let mut job = Job::new("b".into(), serde_json::Value::Null, keep);
    assert_eq!(job.complete(), Completion::MarkCompleted);
    assert_eq!(job.status, JobStatus::Completed);
    assert!(!job.activate());
}

#[test]
fn job_files_live_under_sentinel_jobs() {
    assert_eq!(jobs_dir_in("/data/files"), "/data/files/sentinel/jobs");
    assert_eq!(job_path("/data/files/sentinel/jobs", "j1"), "/data/files/sentinel/jobs/j1.json");
}

#[test]
fn guardian_errors_render() {
    assert_eq!(JobGuardianError::Io("x".into()).to_text(), "I/O error: x");
    assert_eq!(JobGuardianError::Parse("y".into()).to_text(), "JSON parse error: y");
    assert_eq!(JobGuardianError::NotFound("z".into()).to_text(), "job not found: z");
}
