//! User-level synchronisation handles.
use vstd::prelude::*;
use crate::context::ProcessContext;
use crate::manager::{ProcessManager, new_sem_post, remove_sem_post, sem_signal_post, sem_wait_post};
use crate::sem::SemaphoreResult;

verus! {

/// A lock for code that runs with interrupts off on the single CPU: taking
/// it while it is held would spin forever, so callers take it only when free.
pub struct SpinLock {
    locked: bool,
}

impl SpinLock {
    pub closed spec fn is_held(&self) -> bool {
        self.locked
    }

    pub fn new() -> (r: SpinLock)
        ensures
            !r.is_held(),
    {
        SpinLock { locked: false }
    }

    pub fn is_locked(&self) -> (r: bool)
        ensures
            r == self.is_held(),
    {
        self.locked
    }

    pub fn acquire(&mut self)
        requires
            !old(self).is_held(),
        ensures
            final(self).is_held(),
    {
        self.locked = true;
    }

    pub fn release(&mut self)
        ensures
            !final(self).is_held(),
    {
        self.locked = false;
    }
}

/// A handle on the semaphore with this key in the caller's table.
#[derive(Clone, Copy, Debug, PartialEq, Eq, Structural)]
pub struct Semaphore {
    pub key: u32,
}

impl Semaphore {
    pub fn new(key: u32) -> (r: Semaphore)
        ensures
            r.key == key,
    {
        Semaphore { key }
    }

    /// Creates the semaphore with `value` units in the current process's
    /// table; false if the key is taken.
    pub fn init(&self, m: &mut ProcessManager, value: usize) -> (r: bool)
        requires
            old(m).wf(),
        ensures
            final(m).wf(),
            new_sem_post(*old(m), self.key, value, r, *final(m)),
    {
        m.new_sem(self.key, value)
    }

    /// Removes the semaphore; false if there was none.
    pub fn remove(&self, m: &mut ProcessManager) -> (r: bool)
        requires
            old(m).wf(),
        ensures
            final(m).wf(),
            remove_sem_post(*old(m), self.key, r, *final(m)),
    {
        m.remove_sem(self.key)
    }

    /// Waits on the semaphore; see `ProcessManager::sem_wait`.
    pub fn wait(&self, m: &mut ProcessManager, context: &mut ProcessContext) -> (r: SemaphoreResult)
        requires
            old(m).wf(),
        ensures
            final(m).wf(),
            sem_wait_post(*old(m), *old(context), self.key, r, *final(m), *final(context)),
    {
        m.sem_wait(self.key, context)
    }

    /// Signals the semaphore; see `ProcessManager::sem_signal`.
    pub fn signal(&self, m: &mut ProcessManager, context: &mut ProcessContext) -> (r: SemaphoreResult)
        requires
            old(m).wf(),
        ensures
            final(m).wf(),
            sem_signal_post(*old(m), *old(context), self.key, r, *final(m), *final(context)),
    {
        m.sem_signal(self.key, context)
    }
}

} // verus!
