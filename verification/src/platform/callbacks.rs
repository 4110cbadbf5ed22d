//! Registration of callbacks for platform events. This build receives no
//! platform events, so registering does nothing.
use vstd::prelude::*;

verus! {

/// Register a callback for device boot completed. Does nothing on this
/// build.
pub fn on_boot_completed<F: Fn() + Send + Sync + 'static>(callback: F) {
}

/// Register a callback for job-guardian heads-up broadcasts (the job id).
/// Does nothing on this build.
pub fn on_job_heads_up<F: Fn(String) + Send + Sync + 'static>(callback: F) {
}

} // verus!
