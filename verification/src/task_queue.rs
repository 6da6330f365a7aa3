//! A first-in first-out queue of agent tasks.
use vstd::prelude::*;

verus! {

/// One queued task.
pub struct Task {
    pub id: String,
    pub task_type: String,
    pub status: String,
}

/// Tasks in arrival order.
pub struct TaskQueue {
    tasks: Vec<Task>,
}

impl View for TaskQueue {
    type V = Seq<Task>;

    closed spec fn view(&self) -> Seq<Task> {
        self.tasks@
    }
}

impl TaskQueue {
    /// An empty queue.
    pub fn new() -> (q: Self)
        ensures
            q@ == Seq::<Task>::empty(),
    {
        TaskQueue { tasks: Vec::new() }
    }

    /// Append a task at the back.
    pub fn push(&mut self, task: Task)
        ensures
            final(self)@ == old(self)@.push(task),
    {
        self.tasks.push(task);
    }

    /// Number of queued tasks.
    pub fn len(&self) -> (n: usize)
        ensures
            n == self@.len(),
    {
        self.tasks.len()
    }
}

} // verus!
