use crate::utils::tasks::CancellableTask;
use vstd::prelude::*;

verus! {

/// Named task handles, for callers that keep plain tasks rather than
/// channels. At most one handle per name.
pub struct TasksInner {
    pub tasks: Vec<(String, CancellableTask)>,
}

impl TasksInner {
    /// No two handles share a name.
    pub open spec fn wf(self) -> bool {
        forall|i: int, j: int|
            0 <= i < j < self.tasks@.len() ==> self.tasks@[i].0@ != self.tasks@[j].0@
    }

    pub fn new() -> (r: Self)
        ensures
            r.tasks@.len() == 0,
            r.wf(),
    {
        TasksInner { tasks: Vec::new() }
    }
}

impl Default for TasksInner {
    fn default() -> (r: Self)
        ensures
            r.tasks@.len() == 0,
            r.wf(),
    {
        TasksInner { tasks: Vec::new() }
    }
}

} // verus!
