//! Cooperative tasks: their identifiers, the tasks themselves and the
//! bookkeeping of sleeping and cancelled tasks.
use vstd::prelude::*;

pub mod demo_task;
pub mod keyboard;

verus! {

/// An identifier for a task.
#[derive(Debug, Clone, Copy, PartialEq, Eq, Structural)]
pub struct TaskId(u64);

impl View for TaskId {
    type V = u64;

    /// The number of the identifier.
    closed spec fn view(&self) -> u64 {
        self.0
    }
}

impl TaskId {
    /// The next identifier: the current value of the counter `next`, which
    /// moves on by one (wrapping around).
    pub fn new(next: &mut u64) -> (id: Self)
        ensures
            id@ == *old(next),
            *final(next) == (*old(next) as int + 1) % 0x1_0000_0000_0000_0000,
    {
        let id = TaskId(*next);
        *next = next.wrapping_add(1);
        id
    }

    /// The identifier with number `id`.
    pub fn from(id: u64) -> (t: Self)
        ensures
            t@ == id,
    {
        TaskId(id)
    }

    /// The number of the identifier.
    pub fn as_u64(self) -> (n: u64)
        ensures
            n == self@,
    {
        self.0
    }
}

/// A task: its identifier and the computation it runs.
pub struct Task<F> {
    id: TaskId,
    future: F,
}

impl<F> Task<F> {
    /// The identifier.
    pub closed spec fn spec_id(&self) -> TaskId {
        self.id
    }

    /// The computation.
    pub closed spec fn spec_future(&self) -> F {
        self.future
    }

    /// A task with a fresh identifier taken from the counter `next`.
    pub fn new(future: F, next: &mut u64) -> (t: Self)
        ensures
            t.spec_id()@ == *old(next),
            *final(next) == (*old(next) as int + 1) % 0x1_0000_0000_0000_0000,
            t.spec_future() == future,
    {
        Task { id: TaskId::new(next), future }
    }

    /// A task with identifier `id`.
    pub fn new_with_id(id: u64, future: F) -> (t: Self)
        ensures
            t.spec_id()@ == id,
            t.spec_future() == future,
    {
        Task { id: TaskId::from(id), future }
    }

    /// The number of the task's identifier.
    pub fn id(&self) -> (n: u64)
        ensures
            n == self.spec_id()@,
    {
        self.id.as_u64()
    }

    /// The identifier.
    pub fn task_id(&self) -> (t: TaskId)
        ensures
            t == self.spec_id(),
    {
        self.id
    }

    /// The computation, to be polled.
    pub fn future_mut(&mut self) -> (f: &mut F)
        ensures
            *f == old(self).spec_future(),
            final(self).spec_id() == old(self).spec_id(),
            final(self).spec_future() == *final(f),
    {
        &mut self.future
    }
}

/// Two identifiers taken one after the other from the same counter differ
/// (unless the counter wraps around between them).
pub proof fn law_fresh_ids(first: u64, after_first: u64, second: u64)
    requires
        after_first == (first as int + 1) % 0x1_0000_0000_0000_0000,
        second == after_first,
        first < u64::MAX,
    ensures
        first != second,
{
}

} // verus!
