//! A task: a description and the second at which it was created.
use vstd::prelude::*;

verus! {

/// One entry of the task list. The description is the only key by which a
/// task is found; the timestamp counts seconds since the Unix epoch.
#[derive(Debug)]
pub struct Task {
    pub description: String,
    pub created_at: i64,
}

/// Relies on `chrono::Utc::now` and `DateTime::timestamp`: the current time as
/// whole seconds since the Unix epoch. Nothing is known of its value.
#[verifier::external_body]
fn now_timestamp() -> (r: i64) {
    chrono::Utc::now().timestamp()
}

impl Task {
    /// A new task with the given description, stamped with the current time.
    pub fn new(description: String) -> (r: Task)
        ensures
            r.description == description,
    {
        let created_at = now_timestamp();
        Task { description, created_at }
    }
}

impl Clone for Task {
    fn clone(&self) -> (r: Task)
        ensures
            r == *self,
    {
        Task { description: self.description.clone(), created_at: self.created_at }
    }
}

} // verus!
