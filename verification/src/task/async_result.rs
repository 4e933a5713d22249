//! Handles of task results.

use vstd::prelude::*;

verus! {

/// An [`AsyncResult`] is a handle for the result of a task.
#[derive(Debug)]
pub struct AsyncResult {
    pub task_id: String,
}

impl Clone for AsyncResult {
    fn clone(&self) -> (r: Self)
        ensures
            r == self,
    {
        AsyncResult { task_id: self.task_id.clone() }
    }
}

impl AsyncResult {
    /// Makes the handle of the task whose ID is what `task_id` converts into.
    pub fn new<S: Into<String>>(task_id: S) -> (r: Self)
        ensures
            call_ensures(S::into, (task_id,), r.task_id),
    {
        Self { task_id: task_id.into() }
    }
}

} // verus!
