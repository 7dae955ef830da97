//! Kernel-side semaphores: a table from user-chosen keys to counters with
//! queues of blocked waiters. The table only reports scheduling directives;
//! acting on them is the scheduler's business.
use vstd::prelude::*;
use std::collections::HashMap;
use crate::process::ProcessId;

verus! {

/// One semaphore: its counter and the processes blocked on it, oldest first.
pub struct KernelSemaphore {
    pub count: usize,
    pub wait_queue: Vec<ProcessId>,
}

/// What a semaphore operation asks of the scheduler.
#[derive(Clone, Copy, Debug, PartialEq, Eq, Structural)]
pub enum SemaphoreResult {
    /// Done; nothing to schedule.
    Success,
    /// No semaphore has this key.
    NotExist,
    /// The caller must block.
    Block(ProcessId),
    /// This blocked waiter must be woken.
    WakeUp(ProcessId),
}

/// The semaphores of a process group, by key.
pub struct SemaphoreSet {
    sems: HashMap<u32, KernelSemaphore>,
}

/// The abstract state of one semaphore: counter and waiters, oldest first.
pub type SemState = (usize, Seq<ProcessId>);

/// The state after a wait on a semaphore in state `s` by `pid`.
pub open spec fn wait_state(s: SemState, pid: ProcessId) -> SemState {
    if s.0 == 0 {
        (0, s.1.push(pid))
    } else {
        ((s.0 - 1) as usize, s.1)
    }
}

/// The directive a wait on a semaphore in state `s` by `pid` gives.
pub open spec fn wait_result(s: SemState, pid: ProcessId) -> SemaphoreResult {
    if s.0 == 0 {
        SemaphoreResult::Block(pid)
    } else {
        SemaphoreResult::Success
    }
}

/// The state after a signal on a semaphore in state `s`; a counter already
/// at its maximum stays there.
pub open spec fn signal_state(s: SemState) -> SemState {
    if s.1.len() > 0 {
        (s.0, s.1.drop_first())
    } else if s.0 < usize::MAX {
        ((s.0 + 1) as usize, s.1)
    } else {
        s
    }
}

/// The directive a signal on a semaphore in state `s` gives.
pub open spec fn signal_result(s: SemState) -> SemaphoreResult {
    if s.1.len() > 0 {
        SemaphoreResult::WakeUp(s.1[0])
    } else {
        SemaphoreResult::Success
    }
}

impl View for SemaphoreSet {
    type V = Map<u32, SemState>;

    closed spec fn view(&self) -> Map<u32, SemState> {
        self.sems@.map_values(|s: KernelSemaphore| (s.count, s.wait_queue@))
    }
}

impl SemaphoreSet {
    /// An empty table.
    pub fn new() -> (r: SemaphoreSet)
        ensures
            r@ == Map::<u32, SemState>::empty(),
    {
        let r = SemaphoreSet { sems: HashMap::new() };
        assert(r@ =~= Map::<u32, SemState>::empty());
        r
    }

    /// Whether a semaphore has this key.
    pub fn contains(&self, key: u32) -> (r: bool)
        ensures
            r == self@.contains_key(key),
    {
        self.sems.contains_key(&key)
    }

    /// Creates semaphore `key` with counter `value`; false if the key is taken.
    pub fn insert(&mut self, key: u32, value: usize) -> (r: bool)
        ensures
            r == !old(self)@.contains_key(key),
            final(self)@ == if r { old(self)@.insert(key, (value, Seq::empty())) } else { old(self)@ },
    {
        if self.sems.contains_key(&key) {
            return false;
        }
        let s = KernelSemaphore { count: value, wait_queue: Vec::new() };
        self.sems.insert(key, s);
        assert(self@ =~= old(self)@.insert(key, (value, Seq::empty())));
        true
    }

    /// Removes semaphore `key`; false if there was none.
    pub fn remove(&mut self, key: u32) -> (r: bool)
        ensures
            r == old(self)@.contains_key(key),
            final(self)@ == old(self)@.remove(key),
    {
        let removed = self.sems.remove(&key);
        assert(self@ =~= old(self)@.remove(key));
        removed.is_some()
    }

    /// Process `pid` waits on semaphore `key`: takes one unit of the counter,
    /// or joins the end of the queue and must block when the counter is zero.
    pub fn wait(&mut self, key: u32, pid: ProcessId) -> (r: SemaphoreResult)
        ensures
            !old(self)@.contains_key(key) ==> r == SemaphoreResult::NotExist && final(self)@ == old(self)@,
            old(self)@.contains_key(key) ==> {
                &&& r == wait_result(old(self)@[key], pid)
                &&& final(self)@ == old(self)@.insert(key, wait_state(old(self)@[key], pid))
            },
    {
        match self.sems.remove(&key) {
            None => {
                assert(self@ =~= old(self)@);
                SemaphoreResult::NotExist
            },
            Some(s) => {
                let mut s = s;
                let r = if s.count == 0 {
                    s.wait_queue.push(pid);
                    SemaphoreResult::Block(pid)
                } else {
                    s.count = s.count - 1;
                    SemaphoreResult::Success
                };
                self.sems.insert(key, s);
                assert(self@ =~= old(self)@.insert(key, wait_state(old(self)@[key], pid)));
                r
            },
        }
    }

    /// Signals semaphore `key`: wakes the oldest waiter if there is one,
    /// else adds one unit to the counter.
    pub fn signal(&mut self, key: u32) -> (r: SemaphoreResult)
        ensures
            !old(self)@.contains_key(key) ==> r == SemaphoreResult::NotExist && final(self)@ == old(self)@,
            old(self)@.contains_key(key) ==> {
                &&& r == signal_result(old(self)@[key])
                &&& final(self)@ == old(self)@.insert(key, signal_state(old(self)@[key]))
            },
    {
        match self.sems.remove(&key) {
            None => {
                assert(self@ =~= old(self)@);
                SemaphoreResult::NotExist
            },
            Some(s) => {
                let mut s = s;
                let r = if s.wait_queue.len() > 0 {
                    let first = s.wait_queue.remove(0);
                    assert(s.wait_queue@ =~= old(self)@[key].1.drop_first());
                    SemaphoreResult::WakeUp(first)
                } else {
                    if s.count < usize::MAX {
                        s.count = s.count + 1;
                    }
                    SemaphoreResult::Success
                };
                self.sems.insert(key, s);
                assert(self@ =~= old(self)@.insert(key, signal_state(old(self)@[key])));
                r
            },
        }
    }
}

/// A semaphore created with one unit lets the first wait of `p` through and
/// blocks its second; after `q` blocks too, signals wake the blocked waiters
/// oldest first: `p`, then `q`.
pub proof fn lemma_sem_one_unit(t: Map<u32, SemState>, k: u32, p: ProcessId, q: ProcessId)
    requires
        !t.contains_key(k),
    ensures
        ({
            let s1 = t.insert(k, (1usize, Seq::empty()))[k];
            let s2 = wait_state(s1, p);
            let s3 = wait_state(s2, p);
            let s4 = wait_state(s3, q);
            &&& wait_result(s1, p) == SemaphoreResult::Success
            &&& wait_result(s2, p) == SemaphoreResult::Block(p)
            &&& signal_result(s3) == SemaphoreResult::WakeUp(p)
            &&& wait_result(s3, q) == SemaphoreResult::Block(q)
            &&& signal_result(s4) == SemaphoreResult::WakeUp(p)
            &&& signal_result(signal_state(s4)) == SemaphoreResult::WakeUp(q)
        }),
{
    let s1 = t.insert(k, (1usize, Seq::empty()))[k];
    let s4 = wait_state(wait_state(wait_state(s1, p), p), q);
    assert(s4.1 =~= seq![p, q]);
    assert(signal_state(s4).1 =~= seq![q]);
}

} // verus!
