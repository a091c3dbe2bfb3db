use vstd::prelude::*;

verus! {

/// A task identifier.
#[derive(Debug, Clone, Copy, PartialEq, Eq, PartialOrd, Ord, Structural)]
pub struct TaskId(u64);

/// The source of task identifiers: hands out 0, 1, 2, ... and wraps around
/// after `u64::MAX`.
pub struct TaskIdCounter {
    next: u64,
}

impl TaskIdCounter {
    /// The identifier handed out next.
    pub closed spec fn next_id(&self) -> u64 {
        self.next
    }

    /// A counter that starts at 0.
    pub fn new() -> (c: Self)
        ensures
            c.next_id() == 0,
    {
        TaskIdCounter { next: 0 }
    }
}

impl TaskId {
    /// The number behind the identifier.
    pub closed spec fn value(&self) -> u64 {
        self.0
    }

    /// Takes the next identifier from `counter`.
    pub fn new(counter: &mut TaskIdCounter) -> (id: Self)
        ensures
            id.value() == old(counter).next_id(),
            final(counter).next_id() == old(counter).next_id().wrapping_add(1),
    {
        let id = counter.next;
        counter.next = counter.next.wrapping_add(1);
        TaskId(id)
    }

    /// Two identifiers taken one after the other differ.
    pub proof fn law_consecutive_ids_differ(c0: u64, id0: TaskId, c1: u64, id1: TaskId)
        requires
            id0.value() == c0,
            c1 == c0.wrapping_add(1),
            id1.value() == c1,
        ensures
            id0 != id1,
    {
    }
}

/// A cooperative task.
pub struct Task {
    id: TaskId,
}

impl Task {
    /// The task's identifier.
    pub closed spec fn spec_id(&self) -> TaskId {
        self.id
    }

    /// A task with the next identifier of `counter`.
    pub fn new(counter: &mut TaskIdCounter) -> (t: Self)
        ensures
            t.spec_id().value() == old(counter).next_id(),
            final(counter).next_id() == old(counter).next_id().wrapping_add(1),
    {
        Task { id: TaskId::new(counter) }
    }

    /// The task's identifier.
    pub fn id(&self) -> (r: TaskId)
        ensures
            r == self.spec_id(),
    {
        self.id
    }
}

/// What the executor asks of the CPU after a pass over its tasks.
#[derive(Clone, Copy, Debug, PartialEq, Eq, Structural)]
pub enum ExecutorAction {
    /// Disable interrupts, then enable them and halt until the next one.
    HaltUntilInterrupt,
}

/// A cooperative task executor. It keeps no tasks yet: spawned tasks are
/// dropped, and a pass over the ready tasks does nothing.
pub struct Executor {}

impl Executor {
    /// An executor.
    pub fn new() -> (e: Self)
        ensures
            e == (Executor {}),
    {
        Executor {}
    }

    /// Takes `task`; it is not kept yet.
    pub fn spawn(&mut self, _task: Task)
        ensures
            *final(self) == *old(self),
    {
    }

    /// Polls the tasks that are ready (none yet).
    fn run_ready_tasks(&mut self)
        ensures
            *final(self) == *old(self),
    {
    }

    /// One round of the executor's loop: runs the ready tasks, then, with
    /// the task queue empty, asks to halt until the next interrupt.
    pub fn run(&mut self) -> (a: ExecutorAction)
        ensures
            *final(self) == *old(self),
            a == ExecutorAction::HaltUntilInterrupt,
    {
        self.run_ready_tasks();
        ExecutorAction::HaltUntilInterrupt
    }
}

} // verus!
