//! Jobs for the orchestrator and their priorities.

use vstd::prelude::*;

verus! {

/// How urgently the orchestrator is to run a job.
#[derive(Debug, Clone, Copy, PartialEq, Eq, Structural)]
pub enum Priority {
    /// Launch at once. The orchestrator pops these first.
    Immediate,
    /// Holds the current frame back until the job is done.
    VideoFrame,
    /// Normal priority. Runs whenever a worker is free.
    Normal,
    /// Deferred execution. Lowest priority.
    Deferred,
    /// Background execution. Will run regardless of contention.
    Background,
}

impl Default for Priority {
    fn default() -> (priority: Self)
        ensures
            priority == Priority::Normal,
    {
        Priority::Normal
    }
}

/// A synchronous, CPU-bound job. Preferably short-lived.
pub struct Job<F: FnOnce() + Send + 'static> {
    pub inner: F,
    pub priority: Priority,
}

impl<F: FnOnce() + Send + 'static> Job<F> {
    /// A job of normal priority that runs `c`.
    pub fn new(c: F) -> (job: Self)
        ensures
            job.inner == c,
            job.priority == Priority::Normal,
    {
        Job { inner: c, priority: Priority::Normal }
    }

    /// The same job at another priority.
    pub fn with_priority(self, priority: Priority) -> (job: Self)
        ensures
            job.inner == self.inner,
            job.priority == priority,
    {
        Job { inner: self.inner, priority }
    }

    /// Runs the job.
    pub fn exec(self)
        requires
            self.inner.requires(()),
        ensures
            self.inner.ensures((), ()),
    {
        (self.inner)()
    }
}

/// An asynchronous job, which is most beneficial for background work.
/// Use this instead of `Priority::Background`.
#[verifier::reject_recursive_types(Fut)]
pub struct AsyncJob<F, Fut> where
    F: FnOnce() -> Fut + Send + 'static,
    Fut: core::future::Future<Output = ()> + Send + 'static,
 {
    pub inner: F,
    pub priority: Priority,
    pub(crate) _phantom: core::marker::PhantomData<Fut>,
}

impl<F, Fut> AsyncJob<F, Fut> where
    F: FnOnce() -> Fut + Send + 'static,
    Fut: core::future::Future<Output = ()> + Send + 'static,
 {
    /// The function that makes the job's future.
    pub closed spec fn spec_inner(self) -> F {
        self.inner
    }

    /// The job's priority.
    pub closed spec fn spec_priority(self) -> Priority {
        self.priority
    }

    /// A job of normal priority that runs the future that `c` makes.
    pub fn new(c: F) -> (job: Self)
        ensures
            job.spec_inner() == c,
            job.spec_priority() == Priority::Normal,
    {
        AsyncJob { inner: c, priority: Priority::Normal, _phantom: core::marker::PhantomData }
    }

    /// The same job at another priority.
    pub fn with_priority(self, priority: Priority) -> (job: Self)
        ensures
            job.spec_inner() == self.spec_inner(),
            job.spec_priority() == priority,
    {
        AsyncJob { inner: self.inner, priority, _phantom: core::marker::PhantomData }
    }

    /// Makes the job's future; the caller awaits it.
    pub fn start(self) -> (future: Fut)
        requires
            self.spec_inner().requires(()),
        ensures
            self.spec_inner().ensures((), future),
    {
        (self.inner)()
    }
}

/// How many jobs of each kind an orchestrator holds.
#[derive(Debug, Clone, Copy, PartialEq, Eq, Structural)]
pub struct OrchestratorProfile {
    pub immediate: u64,
    pub normal: u64,
    pub deferred: u64,
    pub frame: u64,
    pub running_tasks: u64,
}

} // verus!
